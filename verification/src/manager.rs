//! The connection life cycle: starting, watching, retrying after unexpected
//! failures (up to a fixed budget, with backoff) and stopping on request.
//!
//! Every operation is a step from the manager's state and what the caller
//! observed (a process exit, the proxy port answering, a deadline passing)
//! to the next state and what the caller is to do next (emit a new status,
//! kill the process, wait and retry, ...). The caller performs the I/O.
//!
//! Each connection lineage (from a connect request, through its retries,
//! to a disconnect request) carries a token. The watchers and retry timers
//! of a lineage present its token, and once a disconnect request has ended
//! the lineage, whatever they report is ignored.
use vstd::prelude::*;
use crate::text::{decimal, decimal_chars, string_of};
use crate::status::{
    backoff_ms, retry_backoff_ms, socks_addr_string, socks_addr_text, VerifyResult,
    MAX_AUTO_RETRIES, SOCKS_PORT,
};

verus! {

/// The connection status shown to the user.
#[derive(Debug)]
pub enum ConnectionState {
    Idle,
    DownloadingBinary,
    Launching,
    Connecting,
    Connected { socks_addr: String, connected_at_ms: u64 },
    Reconnecting { attempt: u32, max_attempts: u32 },
    Disconnecting,
    Error { message: String, phase: String },
}

/// A connection status as values.
pub enum ConnectionStateView {
    Idle,
    DownloadingBinary,
    Launching,
    Connecting,
    Connected { socks_addr: Seq<char>, connected_at_ms: u64 },
    Reconnecting { attempt: u32, max_attempts: u32 },
    Disconnecting,
    Error { message: Seq<char>, phase: Seq<char> },
}

impl View for ConnectionState {
    type V = ConnectionStateView;

    open spec fn view(&self) -> ConnectionStateView {
        match self {
            ConnectionState::Idle => ConnectionStateView::Idle,
            ConnectionState::DownloadingBinary => ConnectionStateView::DownloadingBinary,
            ConnectionState::Launching => ConnectionStateView::Launching,
            ConnectionState::Connecting => ConnectionStateView::Connecting,
            ConnectionState::Connected { socks_addr, connected_at_ms } => {
                ConnectionStateView::Connected {
                    socks_addr: socks_addr@,
                    connected_at_ms: *connected_at_ms,
                }
            },
            ConnectionState::Reconnecting { attempt, max_attempts } => {
                ConnectionStateView::Reconnecting { attempt: *attempt, max_attempts: *max_attempts }
            },
            ConnectionState::Disconnecting => ConnectionStateView::Disconnecting,
            ConnectionState::Error { message, phase } => {
                ConnectionStateView::Error { message: message@, phase: phase@ }
            },
        }
    }
}

impl ConnectionState {
    /// A copy of this status.
    pub fn duplicate(&self) -> (r: ConnectionState)
        ensures
            r@ == self@,
    {
        match self {
            ConnectionState::Idle => ConnectionState::Idle,
            ConnectionState::DownloadingBinary => ConnectionState::DownloadingBinary,
            ConnectionState::Launching => ConnectionState::Launching,
            ConnectionState::Connecting => ConnectionState::Connecting,
            ConnectionState::Connected { socks_addr, connected_at_ms } => {
                ConnectionState::Connected {
                    socks_addr: socks_addr.clone(),
                    connected_at_ms: *connected_at_ms,
                }
            },
            ConnectionState::Reconnecting { attempt, max_attempts } => {
                ConnectionState::Reconnecting { attempt: *attempt, max_attempts: *max_attempts }
            },
            ConnectionState::Disconnecting => ConnectionState::Disconnecting,
            ConnectionState::Error { message, phase } => {
                ConnectionState::Error { message: message.clone(), phase: phase.clone() }
            },
        }
    }
}

/// Why an operation was refused.
#[derive(Debug)]
pub enum AetherError {
    /// The client's executable is not where it belongs (its expected path).
    BinaryMissing(String),
    /// A connection attempt or connection is already under way.
    AlreadyRunning,
    /// Something already listens on the proxy port.
    PortInUse(u16),
    /// There is nothing to disconnect.
    NotConnected,
    /// The client could not be started (the reason).
    SpawnFailed(String),
    /// An unexpected environment failure (the reason).
    Internal(String),
}

/// The manager's state as values.
pub struct ManagerView {
    pub state: ConnectionStateView,
    /// The user asked to stop; pending retries and failures are to be
    /// ignored.
    pub user_requested_stop: bool,
    /// Consecutive automatic retries in the current connection lineage.
    pub retry_count: nat,
    /// A client process is running.
    pub has_session: bool,
    /// The token of the current connection lineage.
    pub lineage: u64,
}

/// What an unexpected failure led to.
#[derive(Clone, Copy, Debug, PartialEq, Eq, Structural)]
pub enum FailureOutcome {
    /// The user had asked to stop; the failure is the disconnect's business.
    Ignored,
    /// The retry budget is spent; the status is now an error.
    GaveUp,
    /// Retry `attempt` is scheduled after `backoff_ms` milliseconds.
    Retry { attempt: u32, backoff_ms: u64 },
}

/// What to do after one poll of a connection attempt.
#[derive(Clone, Copy, Debug, PartialEq, Eq, Structural)]
pub enum ConnectPoll {
    /// The user asked to stop; stop watching.
    Stop,
    /// The attempt failed (after killing the process when `kill`).
    Failed { kill: bool, outcome: FailureOutcome },
    /// The setup dialogue is over; the status is now `Connecting`.
    Announce,
    /// The proxy port answers; check the tunnel.
    VerifyRoute,
    /// Nothing new; poll again.
    Wait,
}

/// What to do after a check of the tunnel.
#[derive(Clone, Copy, Debug, PartialEq, Eq, Structural)]
pub enum RouteOutcome {
    /// The user asked to stop; stop watching.
    Stop,
    /// The status is now `Connected`; save the profile and watch the
    /// connection.
    Connected,
    /// The route is unusable: kill the process (when `kill`), then act on
    /// `outcome`.
    Failed { kill: bool, outcome: FailureOutcome },
    /// Not ready yet; poll again.
    KeepWaiting,
}

/// What to do after one poll of an established connection.
#[derive(Clone, Copy, Debug, PartialEq, Eq, Structural)]
pub enum ConnectedPoll {
    Stop,
    Failed { outcome: FailureOutcome },
    Wait,
}

/// How a disconnect request proceeds.
#[derive(Clone, Copy, Debug, PartialEq, Eq, Structural)]
pub enum DisconnectStart {
    /// Ctrl-C has to be sent to the running client, then its exit awaited.
    AwaitExit,
    /// No process was running (a retry was pending); the status is `Idle`.
    Stopped,
}

/// What to do after one poll of a disconnect in progress.
#[derive(Clone, Copy, Debug, PartialEq, Eq, Structural)]
pub enum DisconnectPoll {
    Wait,
    /// The disconnect is complete and the status is `Idle`; kill the process
    /// first when `kill`.
    Finished { kill: bool },
}

/// The shape every manager keeps: a `Reconnecting` status shows the current
/// retry count, which is at least one and within the budget.
pub open spec fn manager_inv(m: ManagerView) -> bool {
    match m.state {
        ConnectionStateView::Reconnecting { attempt, max_attempts } => {
            &&& attempt as nat == m.retry_count
            &&& 1 <= attempt <= max_attempts
            &&& max_attempts == MAX_AUTO_RETRIES
        },
        _ => true,
    }
}

/// A new connection may be started from this status.
pub open spec fn accepts_connect_spec(s: ConnectionStateView) -> bool {
    s is Idle || s is Error
}

/// The token of the lineage that follows `l`.
pub open spec fn next_lineage(l: u64) -> u64 {
    if l == u64::MAX {
        0
    } else {
        (l + 1) as u64
    }
}

/// A report carrying `token` is to be ignored: the user asked to stop, or
/// the token is not that of the current lineage.
pub open spec fn ignores(m: ManagerView, token: u64) -> bool {
    m.user_requested_stop || token != m.lineage
}

/// The suffix of the error message when the retry budget is spent.
pub open spec fn gave_up_suffix() -> Seq<char> {
    " (gave up after "@ + decimal(MAX_AUTO_RETRIES as nat) + " retries)"@
}

/// The effect of an unexpected failure (`message`, during `phase`) reported
/// by a watcher of lineage `token`.
pub open spec fn failure_spec(m: ManagerView, token: u64, message: Seq<char>, phase: Seq<char>) -> (
    ManagerView,
    FailureOutcome,
) {
    if ignores(m, token) {
        (m, FailureOutcome::Ignored)
    } else {
        let attempt = m.retry_count + 1;
        if attempt > MAX_AUTO_RETRIES {
            (
                ManagerView {
                    state: ConnectionStateView::Error {
                        message: message + gave_up_suffix(),
                        phase: phase,
                    },
                    retry_count: attempt,
                    has_session: false,
                    ..m
                },
                FailureOutcome::GaveUp,
            )
        } else {
            (
                ManagerView {
                    state: ConnectionStateView::Reconnecting {
                        attempt: attempt as u32,
                        max_attempts: MAX_AUTO_RETRIES,
                    },
                    retry_count: attempt,
                    has_session: false,
                    ..m
                },
                FailureOutcome::Retry {
                    attempt: attempt as u32,
                    backoff_ms: backoff_ms(attempt as u32),
                },
            )
        }
    }
}

/// A failure reported with `token` may be recorded: when it is to be
/// counted, the retry counter has room.
pub open spec fn failure_allowed(m: ManagerView, token: u64) -> bool {
    !ignores(m, token) ==> m.retry_count < u32::MAX
}

/// The effect of a retry of lineage `token` coming due.
pub open spec fn retry_due_spec(m: ManagerView, token: u64) -> (ManagerView, bool) {
    if ignores(m, token) {
        (m, false)
    } else {
        (ManagerView { state: ConnectionStateView::Launching, ..m }, true)
    }
}

/// The effect of a client process of lineage `token` having been started:
/// recorded (and any earlier stop request cleared) only for the current
/// lineage; otherwise the caller is to kill it again.
pub open spec fn session_started_spec(m: ManagerView, token: u64) -> (ManagerView, bool) {
    if token != m.lineage {
        (m, false)
    } else {
        (ManagerView { user_requested_stop: false, has_session: true, ..m }, true)
    }
}

/// The effect of the client of lineage `token` failing to start.
pub open spec fn spawn_failed_spec(m: ManagerView, token: u64, message: Seq<char>) -> ManagerView {
    if token != m.lineage {
        m
    } else {
        ManagerView {
            state: ConnectionStateView::Error { message: message, phase: "launching"@ },
            ..m
        }
    }
}

/// The effect of a user's connect request once the client's executable is
/// known to be in place; `port_live` says whether something already listens
/// on the proxy port. On success the result is the new lineage's token.
pub open spec fn start_launch_spec(m: ManagerView, port_live: bool) -> (
    ManagerView,
    Result<u64, AetherError>,
) {
    if !accepts_connect_spec(m.state) {
        (m, Err(AetherError::AlreadyRunning))
    } else if port_live {
        (m, Err(AetherError::PortInUse(SOCKS_PORT)))
    } else {
        (
            ManagerView {
                state: ConnectionStateView::Launching,
                retry_count: 0,
                lineage: next_lineage(m.lineage),
                ..m
            },
            Ok(next_lineage(m.lineage)),
        )
    }
}

/// The effect of one poll by a watcher of lineage `token` while connecting.
/// `exit` is the exit status text of the client process when it has
/// exited; the others are what the caller observed. In turn: a process
/// exit, the end of the setup dialogue, a live proxy port (to be checked),
/// and last the attempt's deadline.
pub open spec fn poll_connect_spec(
    m: ManagerView,
    token: u64,
    announced_connecting: bool,
    exit: Option<Seq<char>>,
    prompts_done: bool,
    port_live: bool,
    timed_out: bool,
) -> (ManagerView, ConnectPoll) {
    if ignores(m, token) {
        (m, ConnectPoll::Stop)
    } else if m.has_session && exit is Some {
        let (m2, o) = failure_spec(
            ManagerView { has_session: false, ..m },
            token,
            "Aether exited before connecting ("@ + exit->0 + ")"@,
            "connecting"@,
        );
        (m2, ConnectPoll::Failed { kill: false, outcome: o })
    } else if !announced_connecting && m.has_session && prompts_done {
        (ManagerView { state: ConnectionStateView::Connecting, ..m }, ConnectPoll::Announce)
    } else if port_live {
        (m, ConnectPoll::VerifyRoute)
    } else if timed_out {
        timeout_spec(m, token)
    } else {
        (m, ConnectPoll::Wait)
    }
}

/// The message of a connection attempt that ran out of time.
pub open spec fn timeout_message() -> Seq<char> {
    "Timed out waiting for Aether to find a working route"@
}

/// The effect of the attempt's deadline having passed: the process (if
/// any) is to be killed and the timeout is an unexpected failure of the
/// connecting phase.
pub open spec fn timeout_spec(m: ManagerView, token: u64) -> (ManagerView, ConnectPoll) {
    let (m2, o) = failure_spec(
        ManagerView { has_session: false, ..m },
        token,
        timeout_message(),
        "connecting"@,
    );
    (m2, ConnectPoll::Failed { kill: m.has_session, outcome: o })
}

/// The effect of a tunnel check's result, reported by a watcher of lineage
/// `token`; `timed_out` says whether the attempt's deadline has passed. A
/// check that finds the tunnel not ready yet leaves the attempt going until
/// the deadline, and past it ends the attempt as timed out.
pub open spec fn route_verified_spec(
    m: ManagerView,
    token: u64,
    result: VerifyResult,
    timed_out: bool,
    connected_at_ms: u64,
) -> (ManagerView, RouteOutcome) {
    match result {
        VerifyResult::Failed => if !timed_out {
            (m, RouteOutcome::KeepWaiting)
        } else if ignores(m, token) {
            (m, RouteOutcome::Stop)
        } else {
            let (m2, o) = failure_spec(
                ManagerView { has_session: false, ..m },
                token,
                timeout_message(),
                "connecting"@,
            );
            (m2, RouteOutcome::Failed { kill: m.has_session, outcome: o })
        },
        _ => if ignores(m, token) {
            (m, RouteOutcome::Stop)
        } else if result is Good {
            (
                ManagerView {
                    state: ConnectionStateView::Connected {
                        socks_addr: socks_addr_text(),
                        connected_at_ms: connected_at_ms,
                    },
                    retry_count: 0,
                    ..m
                },
                RouteOutcome::Connected,
            )
        } else {
            let (m2, o) = failure_spec(
                ManagerView { has_session: false, ..m },
                token,
                "Assigned IP was strictly blocked (Iranian IP detected)"@,
                "connecting"@,
            );
            (m2, RouteOutcome::Failed { kill: m.has_session, outcome: o })
        },
    }
}

/// The effect of one poll of an established connection by a watcher of
/// lineage `token`.
pub open spec fn poll_connected_spec(m: ManagerView, token: u64, exit: Option<Seq<char>>) -> (
    ManagerView,
    ConnectedPoll,
) {
    if ignores(m, token) {
        (m, ConnectedPoll::Stop)
    } else if m.has_session && exit is Some {
        let (m2, o) = failure_spec(
            ManagerView { has_session: false, ..m },
            token,
            "Lost connection unexpectedly ("@ + exit->0 + ")"@,
            "connected"@,
        );
        (m2, ConnectedPoll::Failed { outcome: o })
    } else {
        (m, ConnectedPoll::Wait)
    }
}

/// The effect of a user's disconnect request. An accepted request ends the
/// current lineage.
pub open spec fn request_disconnect_spec(m: ManagerView) -> (
    ManagerView,
    Result<DisconnectStart, AetherError>,
) {
    if !m.has_session && !(m.state is Reconnecting) {
        (m, Err(AetherError::NotConnected))
    } else if m.has_session {
        (
            ManagerView {
                state: ConnectionStateView::Disconnecting,
                user_requested_stop: true,
                retry_count: 0,
                lineage: next_lineage(m.lineage),
                ..m
            },
            Ok(DisconnectStart::AwaitExit),
        )
    } else {
        (
            ManagerView {
                state: ConnectionStateView::Idle,
                user_requested_stop: true,
                retry_count: 0,
                lineage: next_lineage(m.lineage),
                ..m
            },
            Ok(DisconnectStart::Stopped),
        )
    }
}

/// The effect of one poll while waiting for the client to exit after
/// Ctrl-C. `exited` says the process has exited, `timed_out` that the grace
/// period is over.
pub open spec fn poll_disconnect_spec(m: ManagerView, exited: bool, timed_out: bool) -> (
    ManagerView,
    DisconnectPoll,
) {
    let exited = m.has_session && exited;
    if exited || timed_out {
        (
            ManagerView {
                state: ConnectionStateView::Idle,
                user_requested_stop: false,
                has_session: false,
                ..m
            },
            DisconnectPoll::Finished { kill: !exited && m.has_session },
        )
    } else {
        (m, DisconnectPoll::Wait)
    }
}

/// The effect of the application quitting.
pub open spec fn shutdown_spec(m: ManagerView) -> ManagerView {
    ManagerView { has_session: false, ..m }
}

/// The connection manager.
pub struct AetherManager {
    state: ConnectionState,
    user_requested_stop: bool,
    retry_count: u32,
    has_session: bool,
    lineage: u64,
}

impl View for AetherManager {
    type V = ManagerView;

    closed spec fn view(&self) -> ManagerView {
        ManagerView {
            state: self.state@,
            user_requested_stop: self.user_requested_stop,
            retry_count: self.retry_count as nat,
            has_session: self.has_session,
            lineage: self.lineage,
        }
    }
}

impl AetherManager {
    #[verifier::type_invariant]
    closed spec fn well_formed(&self) -> bool {
        manager_inv(self@)
    }

    /// Every manager keeps `manager_inv`.
    pub fn check_invariant(&self)
        ensures
            manager_inv(self@),
    {
        proof {
            use_type_invariant(self);
        }
    }

    /// An idle manager with no process and no retries used.
    pub fn new() -> (m: Self)
        ensures
            m@ == (ManagerView {
                state: ConnectionStateView::Idle,
                user_requested_stop: false,
                retry_count: 0,
                has_session: false,
                lineage: 0,
            }),
    {
        AetherManager {
            state: ConnectionState::Idle,
            user_requested_stop: false,
            retry_count: 0,
            has_session: false,
            lineage: 0,
        }
    }

    /// The current status.
    pub fn status(&self) -> (s: ConnectionState)
        ensures
            s@ == self@.state,
    {
        self.state.duplicate()
    }

    /// Whether a new connection may be started now (the status is `Idle` or
    /// `Error`).
    pub fn accepts_connect(&self) -> (r: bool)
        ensures
            r == accepts_connect_spec(self@.state),
    {
        match self.state {
            ConnectionState::Idle => true,
            ConnectionState::Error { .. } => true,
            _ => false,
        }
    }

    /// The token of the current connection lineage.
    pub fn lineage(&self) -> (t: u64)
        ensures
            t == self@.lineage,
    {
        self.lineage
    }

    /// Whether an unexpected failure reported with `token` may be recorded
    /// now: the retry counter has room when it is to be counted.
    pub fn can_record_failure(&self, token: u64) -> (r: bool)
        ensures
            r == failure_allowed(self@, token),
    {
        self.user_requested_stop || token != self.lineage || self.retry_count < u32::MAX
    }

    /// Replaces the whole state at once.
    fn replace(
        &mut self,
        state: ConnectionState,
        stop: bool,
        retry_count: u32,
        has_session: bool,
        lineage: u64,
    )
        requires
            manager_inv(
                ManagerView {
                    state: state@,
                    user_requested_stop: stop,
                    retry_count: retry_count as nat,
                    has_session: has_session,
                    lineage: lineage,
                },
            ),
        ensures
            final(self)@ == (ManagerView {
                state: state@,
                user_requested_stop: stop,
                retry_count: retry_count as nat,
                has_session: has_session,
                lineage: lineage,
            }),
    {
        *self = AetherManager {
            state: state,
            user_requested_stop: stop,
            retry_count: retry_count,
            has_session: has_session,
            lineage: lineage,
        };
    }

    /// A user's connect request, returning synchronously. `missing_binary`
    /// is the expected path of the client's executable when it is not in
    /// place; `port_live` says whether something already listens on the
    /// proxy port. A missing executable, an attempt or connection already
    /// under way, and a taken port are refused and change nothing;
    /// otherwise the status moves to `Launching`, the retry budget is reset
    /// and a new lineage begins, whose token is returned.
    pub fn start_connect(&mut self, missing_binary: Option<String>, port_live: bool) -> (r: Result<
        u64,
        AetherError,
    >)
        ensures
            match missing_binary {
                Some(path) => {
                    &&& final(self)@ == old(self)@
                    &&& r matches Err(AetherError::BinaryMissing(p)) && p@ == path@
                },
                None => (final(self)@, r) == start_launch_spec(old(self)@, port_live),
            },
    {
        if let Some(path) = missing_binary {
            return Err(AetherError::BinaryMissing(path));
        }
        if !self.accepts_connect() {
            return Err(AetherError::AlreadyRunning);
        }
        if port_live {
            return Err(AetherError::PortInUse(SOCKS_PORT));
        }
        let stop = self.user_requested_stop;
        let has = self.has_session;
        let token = if self.lineage == u64::MAX {
            0
        } else {
            self.lineage + 1
        };
        self.replace(ConnectionState::Launching, stop, 0, has, token);
        Ok(token)
    }

    /// The client of lineage `token` could not be started: the status
    /// becomes an error of the launching phase (no retry: this is a setup
    /// problem, not a network drop). Ignored for an ended lineage.
    pub fn spawn_failed(&mut self, token: u64, message: String)
        ensures
            final(self)@ == spawn_failed_spec(old(self)@, token, message@),
    {
        if token != self.lineage {
            return;
        }
        let stop = self.user_requested_stop;
        let has = self.has_session;
        let retry = self.retry_count;
        let lineage = self.lineage;
        let phase = String::from_str("launching");
        self.replace(ConnectionState::Error { message, phase }, stop, retry, has, lineage);
    }

    /// A client process of lineage `token` was started: for the current
    /// lineage it is recorded and any earlier stop request no longer
    /// applies; for an ended lineage nothing changes and the result (false)
    /// tells the caller to kill the process again.
    pub fn session_started(&mut self, token: u64) -> (recorded: bool)
        ensures
            (final(self)@, recorded) == session_started_spec(old(self)@, token),
    {
        proof {
            use_type_invariant(&*self);
        }
        if token != self.lineage {
            return false;
        }
        let retry = self.retry_count;
        let lineage = self.lineage;
        let state = self.state.duplicate();
        self.replace(state, false, retry, true, lineage);
        true
    }

    /// An unexpected failure (the process exited, the attempt timed out, the
    /// route is blocked, the connection dropped) reported by a watcher of
    /// lineage `token`: ignored after a stop request or once the lineage has
    /// ended; otherwise the process is forgotten, the retry count goes up,
    /// and either a retry is scheduled with its backoff (status
    /// `Reconnecting`) or, past the budget, the status becomes an error.
    pub fn unexpected_failure(&mut self, token: u64, failure_message: &str, phase: &str) -> (o:
        FailureOutcome)
        requires
            failure_allowed(old(self)@, token),
        ensures
            (final(self)@, o) == failure_spec(old(self)@, token, failure_message@, phase@),
    {
        if self.user_requested_stop || token != self.lineage {
            return FailureOutcome::Ignored;
        }
        let attempt = self.retry_count + 1;
        let lineage = self.lineage;
        if attempt > MAX_AUTO_RETRIES {
            let mut message = String::from_str(failure_message);
            message.append(" (gave up after ");
            let n = string_of(&decimal_chars(MAX_AUTO_RETRIES as u64));
            message.append(n.as_str());
            message.append(" retries)");
            assert(message@ == failure_message@ + gave_up_suffix());
            let phase = String::from_str(phase);
            self.replace(ConnectionState::Error { message, phase }, false, attempt, false, lineage);
            FailureOutcome::GaveUp
        } else {
            self.replace(
                ConnectionState::Reconnecting { attempt, max_attempts: MAX_AUTO_RETRIES },
                false,
                attempt,
                false,
                lineage,
            );
            FailureOutcome::Retry { attempt, backoff_ms: retry_backoff_ms(attempt) }
        }
    }

    /// A scheduled retry of lineage `token` came due: unless the user asked
    /// to stop meanwhile or the lineage has ended, the status moves to
    /// `Launching` and the caller starts the client again (the result says
    /// whether to).
    pub fn retry_due(&mut self, token: u64) -> (go: bool)
        ensures
            (final(self)@, go) == retry_due_spec(old(self)@, token),
    {
        if self.user_requested_stop || token != self.lineage {
            return false;
        }
        let retry = self.retry_count;
        let has = self.has_session;
        let lineage = self.lineage;
        self.replace(ConnectionState::Launching, false, retry, has, lineage);
        true
    }

    /// One poll of a connection attempt by its watcher (lineage `token`),
    /// with what the caller observed: the process's exit status text when it
    /// has exited, whether the setup dialogue is over, whether the proxy
    /// port answers, and whether the attempt's deadline has passed.
    pub fn poll_connect(
        &mut self,
        token: u64,
        announced_connecting: bool,
        exit: Option<String>,
        prompts_done: bool,
        port_live: bool,
        timed_out: bool,
    ) -> (r: ConnectPoll)
        requires
            failure_allowed(old(self)@, token),
        ensures
            (final(self)@, r) == poll_connect_spec(
                old(self)@,
                token,
                announced_connecting,
                match exit {
                    Some(e) => Some(e@),
                    None => None,
                },
                prompts_done,
                port_live,
                timed_out,
            ),
    {
        proof {
            use_type_invariant(&*self);
        }
        if self.user_requested_stop || token != self.lineage {
            return ConnectPoll::Stop;
        }
        let had_session = self.has_session;
        if had_session {
            if let Some(e) = exit {
                self.forget_session();
                let mut message = String::from_str("Aether exited before connecting (");
                message.append(e.as_str());
                message.append(")");
                let o = self.unexpected_failure(token, message.as_str(), "connecting");
                return ConnectPoll::Failed { kill: false, outcome: o };
            }
        }
        if !announced_connecting && had_session && prompts_done {
            let stop = self.user_requested_stop;
            let retry = self.retry_count;
            let lineage = self.lineage;
            self.replace(ConnectionState::Connecting, stop, retry, had_session, lineage);
            return ConnectPoll::Announce;
        }
        if port_live {
            return ConnectPoll::VerifyRoute;
        }
        if timed_out {
            self.forget_session();
            let o = self.unexpected_failure(
                token,
                "Timed out waiting for Aether to find a working route",
                "connecting",
            );
            return ConnectPoll::Failed { kill: had_session, outcome: o };
        }
        ConnectPoll::Wait
    }

    /// Records that no client process is running any more.
    fn forget_session(&mut self)
        ensures
            final(self)@ == (ManagerView { has_session: false, ..old(self)@ }),
    {
        proof {
            use_type_invariant(&*self);
        }
        let stop = self.user_requested_stop;
        let retry = self.retry_count;
        let lineage = self.lineage;
        let state = self.state.duplicate();
        self.replace(state, stop, retry, false, lineage);
    }

    /// The result of checking the tunnel once the proxy port answered,
    /// reported by the watcher of lineage `token`: a working tunnel makes the
    /// status `Connected` (with the proxy's address and `connected_at_ms`)
    /// and restores the full retry budget; a blocked route is an unexpected
    /// failure of the connecting phase; a tunnel not ready yet keeps the
    /// attempt going until its deadline (`timed_out`), and past it the
    /// attempt ends as timed out.
    pub fn route_verified(
        &mut self,
        token: u64,
        result: VerifyResult,
        timed_out: bool,
        connected_at_ms: u64,
    ) -> (r: RouteOutcome)
        requires
            failure_allowed(old(self)@, token),
        ensures
            (final(self)@, r) == route_verified_spec(
                old(self)@,
                token,
                result,
                timed_out,
                connected_at_ms,
            ),
    {
        match result {
            VerifyResult::Failed => {
                if !timed_out {
                    return RouteOutcome::KeepWaiting;
                }
                if self.user_requested_stop || token != self.lineage {
                    return RouteOutcome::Stop;
                }
                let had_session = self.has_session;
                self.forget_session();
                let o = self.unexpected_failure(
                    token,
                    "Timed out waiting for Aether to find a working route",
                    "connecting",
                );
                RouteOutcome::Failed { kill: had_session, outcome: o }
            },
            VerifyResult::Good => {
                if self.user_requested_stop || token != self.lineage {
                    return RouteOutcome::Stop;
                }
                let has = self.has_session;
                let lineage = self.lineage;
                let addr = socks_addr_string();
                self.replace(
                    ConnectionState::Connected { socks_addr: addr, connected_at_ms },
                    false,
                    0,
                    has,
                    lineage,
                );
                RouteOutcome::Connected
            },
            VerifyResult::BadRoute => {
                if self.user_requested_stop || token != self.lineage {
                    return RouteOutcome::Stop;
                }
                let had_session = self.has_session;
                self.forget_session();
                let o = self.unexpected_failure(
                    token,
                    "Assigned IP was strictly blocked (Iranian IP detected)",
                    "connecting",
                );
                RouteOutcome::Failed { kill: had_session, outcome: o }
            },
        }
    }

    /// One poll of an established connection by its watcher (lineage
    /// `token`), with the process's exit status text when it has exited.
    pub fn poll_connected(&mut self, token: u64, exit: Option<String>) -> (r: ConnectedPoll)
        requires
            failure_allowed(old(self)@, token),
        ensures
            (final(self)@, r) == poll_connected_spec(
                old(self)@,
                token,
                match exit {
                    Some(e) => Some(e@),
                    None => None,
                },
            ),
    {
        if self.user_requested_stop || token != self.lineage {
            return ConnectedPoll::Stop;
        }
        if self.has_session {
            if let Some(e) = exit {
                self.forget_session();
                let mut message = String::from_str("Lost connection unexpectedly (");
                message.append(e.as_str());
                message.append(")");
                let o = self.unexpected_failure(token, message.as_str(), "connected");
                return ConnectedPoll::Failed { outcome: o };
            }
        }
        ConnectedPoll::Wait
    }

    /// A user's disconnect request: refused when no process runs and no
    /// retry is pending; otherwise the current lineage ends (its watchers
    /// and retries are ignored from now on), the retry budget is reset, and
    /// the status is `Disconnecting` (a process runs: the caller sends
    /// Ctrl-C) or `Idle`.
    pub fn request_disconnect(&mut self) -> (r: Result<DisconnectStart, AetherError>)
        ensures
            (final(self)@, r) == request_disconnect_spec(old(self)@),
    {
        let reconnecting = match self.state {
            ConnectionState::Reconnecting { .. } => true,
            _ => false,
        };
        if !self.has_session && !reconnecting {
            return Err(AetherError::NotConnected);
        }
        let next = if self.lineage == u64::MAX {
            0
        } else {
            self.lineage + 1
        };
        if self.has_session {
            self.replace(ConnectionState::Disconnecting, true, 0, true, next);
            Ok(DisconnectStart::AwaitExit)
        } else {
            self.replace(ConnectionState::Idle, true, 0, false, next);
            Ok(DisconnectStart::Stopped)
        }
    }

    /// One poll while the client is given its grace period to exit: once it
    /// has exited or the grace period is over, the process is forgotten
    /// (killed first if still running), the stop request is cleared and the
    /// status is `Idle`.
    pub fn poll_disconnect(&mut self, exited: bool, timed_out: bool) -> (r: DisconnectPoll)
        ensures
            (final(self)@, r) == poll_disconnect_spec(old(self)@, exited, timed_out),
    {
        let exited = self.has_session && exited;
        if exited || timed_out {
            let kill = !exited && self.has_session;
            let retry = self.retry_count;
            let lineage = self.lineage;
            self.replace(ConnectionState::Idle, false, retry, false, lineage);
            DisconnectPoll::Finished { kill }
        } else {
            DisconnectPoll::Wait
        }
    }

    /// The application is quitting: the process (if any) is forgotten; the
    /// result says whether there was one to stop.
    pub fn shutdown(&mut self) -> (had_session: bool)
        ensures
            had_session == old(self)@.has_session,
            final(self)@ == shutdown_spec(old(self)@),
    {
        let had = self.has_session;
        self.forget_session();
        had
    }
}

/// A run of unexpected failures in lineage `token`, each followed by its
/// retry coming due.
pub open spec fn fail_and_retry(
    m: ManagerView,
    token: u64,
    failures: Seq<(Seq<char>, Seq<char>)>,
) -> ManagerView
    decreases failures.len(),
{
    if failures.len() == 0 {
        m
    } else {
        let m1 = failure_spec(m, token, failures[0].0, failures[0].1).0;
        fail_and_retry(retry_due_spec(m1, token).0, token, failures.drop_first())
    }
}

proof fn lemma_fail_and_retry_count(
    m: ManagerView,
    token: u64,
    failures: Seq<(Seq<char>, Seq<char>)>,
)
    requires
        !ignores(m, token),
        m.retry_count + failures.len() <= MAX_AUTO_RETRIES,
    ensures
        !ignores(fail_and_retry(m, token, failures), token),
        fail_and_retry(m, token, failures).retry_count == m.retry_count + failures.len(),
    decreases failures.len(),
{
    if failures.len() > 0 {
        let m1 = failure_spec(m, token, failures[0].0, failures[0].1).0;
        lemma_fail_and_retry_count(retry_due_spec(m1, token).0, token, failures.drop_first());
    }
}

/// The retry budget: starting from a fresh attempt (no retries used, no
/// stop requested, the current lineage), after `failures.len()` failures
/// that were each retried, one more failure schedules retry number
/// `failures.len() + 1` (status `Reconnecting` with that attempt and its
/// backoff) while that is within `MAX_AUTO_RETRIES`, and gives up with an
/// error of the failure's phase once the budget is spent.
pub proof fn lemma_retry_budget(
    m: ManagerView,
    failures: Seq<(Seq<char>, Seq<char>)>,
    message: Seq<char>,
    phase: Seq<char>,
)
    requires
        !m.user_requested_stop,
        m.retry_count == 0,
        failures.len() <= MAX_AUTO_RETRIES,
    ensures
        ({
            let (m2, o) = failure_spec(
                fail_and_retry(m, m.lineage, failures),
                m.lineage,
                message,
                phase,
            );
            let k = (failures.len() + 1) as u32;
            &&& failures.len() < MAX_AUTO_RETRIES ==> o == FailureOutcome::Retry {
                attempt: k,
                backoff_ms: backoff_ms(k),
            } && m2.state == ConnectionStateView::Reconnecting {
                attempt: k,
                max_attempts: MAX_AUTO_RETRIES,
            }
            &&& failures.len() == MAX_AUTO_RETRIES ==> o == FailureOutcome::GaveUp && m2.state
                == ConnectionStateView::Error { message: message + gave_up_suffix(), phase: phase }
        }),
{
    lemma_fail_and_retry_count(m, m.lineage, failures);
}

/// The deadline bounds a connection attempt without cutting short what the
/// client has already achieved: once it has passed, a poll of the current
/// lineage with the client still running first announces a just-finished
/// setup dialogue, and otherwise, when the proxy port does not answer, kills
/// the client and records the timeout; when the port answers, the tunnel is
/// checked, and a working tunnel still connects, a blocked route is still
/// reported as such, and only a tunnel not ready yet ends the attempt as
/// timed out.
pub proof fn lemma_deadline_bounds_attempt(
    m: ManagerView,
    announced: bool,
    prompts_done: bool,
    port_live: bool,
    connected_at_ms: u64,
)
    requires
        !ignores(m, m.lineage),
        m.has_session,
    ensures
        ({
            let t = m.lineage;
            let (m2, o) = failure_spec(
                ManagerView { has_session: false, ..m },
                t,
                timeout_message(),
                "connecting"@,
            );
            let r = poll_connect_spec(m, t, announced, None, prompts_done, port_live, true);
            &&& !announced && prompts_done ==> r.1 is Announce
            &&& !(!announced && prompts_done) && port_live ==> r == (m, ConnectPoll::VerifyRoute)
            &&& !(!announced && prompts_done) && !port_live ==> r == (
                m2,
                ConnectPoll::Failed { kill: true, outcome: o },
            )
            &&& route_verified_spec(m, t, VerifyResult::Failed, true, connected_at_ms) == (
                m2,
                RouteOutcome::Failed { kill: true, outcome: o },
            )
            &&& route_verified_spec(m, t, VerifyResult::Good, true, connected_at_ms).1 is Connected
            &&& route_verified_spec(m, t, VerifyResult::BadRoute, true, connected_at_ms)
                == route_verified_spec(m, t, VerifyResult::BadRoute, false, connected_at_ms)
        }),
{
}

/// A report of an ended lineage is ignored: every step that carries a token
/// other than the current one leaves the manager as it is, and its watchers
/// stop, its retries do not start and its process is not recorded.
pub proof fn lemma_stale_reports_ignored(
    m: ManagerView,
    token: u64,
    message: Seq<char>,
    phase: Seq<char>,
    announced: bool,
    exit: Option<Seq<char>>,
    prompts_done: bool,
    port_live: bool,
    timed_out: bool,
    result: VerifyResult,
    connected_at_ms: u64,
)
    requires
        token != m.lineage,
    ensures
        failure_spec(m, token, message, phase) == (m, FailureOutcome::Ignored),
        retry_due_spec(m, token) == (m, false),
        session_started_spec(m, token) == (m, false),
        spawn_failed_spec(m, token, message) == m,
        poll_connect_spec(m, token, announced, exit, prompts_done, port_live, timed_out) == (
            m,
            ConnectPoll::Stop,
        ),
        poll_connected_spec(m, token, exit) == (m, ConnectedPoll::Stop),
        route_verified_spec(m, token, result, timed_out, connected_at_ms).0 == m,
        route_verified_spec(m, token, result, timed_out, connected_at_ms).1 is Stop
            || route_verified_spec(m, token, result, timed_out, connected_at_ms).1 is KeepWaiting,
{
}

/// Something that can happen to a manager after a connect request: a report
/// of a lineage's watcher or retry timer, a user's disconnect request, a
/// poll of a disconnect in progress, or the application quitting.
pub enum ManagerEvent {
    PollConnect {
        token: u64,
        announced: bool,
        exit: Option<Seq<char>>,
        prompts_done: bool,
        port_live: bool,
        timed_out: bool,
    },
    RouteVerified { token: u64, result: VerifyResult, timed_out: bool, connected_at_ms: u64 },
    PollConnected { token: u64, exit: Option<Seq<char>> },
    Failure { token: u64, message: Seq<char>, phase: Seq<char> },
    RetryDue { token: u64 },
    SessionStarted { token: u64 },
    SpawnFailed { token: u64, message: Seq<char> },
    RequestDisconnect,
    PollDisconnect { exited: bool, timed_out: bool },
    Shutdown,
}

/// The manager after `e`.
pub open spec fn apply_event(m: ManagerView, e: ManagerEvent) -> ManagerView {
    match e {
        ManagerEvent::PollConnect {
            token,
            announced,
            exit,
            prompts_done,
            port_live,
            timed_out,
        } => poll_connect_spec(m, token, announced, exit, prompts_done, port_live, timed_out).0,
        ManagerEvent::RouteVerified {
            token,
            result,
            timed_out,
            connected_at_ms,
        } => route_verified_spec(m, token, result, timed_out, connected_at_ms).0,
        ManagerEvent::PollConnected { token, exit } => poll_connected_spec(m, token, exit).0,
        ManagerEvent::Failure { token, message, phase } => failure_spec(
            m,
            token,
            message,
            phase,
        ).0,
        ManagerEvent::RetryDue { token } => retry_due_spec(m, token).0,
        ManagerEvent::SessionStarted { token } => session_started_spec(m, token).0,
        ManagerEvent::SpawnFailed { token, message } => spawn_failed_spec(m, token, message),
        ManagerEvent::RequestDisconnect => request_disconnect_spec(m).0,
        ManagerEvent::PollDisconnect { exited, timed_out } => poll_disconnect_spec(
            m,
            exited,
            timed_out,
        ).0,
        ManagerEvent::Shutdown => shutdown_spec(m),
    }
}

/// `e` starts the client again: an accepted retry or a recorded process.
pub open spec fn event_starts_client(m: ManagerView, e: ManagerEvent) -> bool {
    match e {
        ManagerEvent::RetryDue { token } => retry_due_spec(m, token).1,
        ManagerEvent::SessionStarted { token } => session_started_spec(m, token).1,
        _ => false,
    }
}

/// The token carried by `e`, if any.
pub open spec fn event_token(e: ManagerEvent) -> Option<u64> {
    match e {
        ManagerEvent::PollConnect { token, .. } => Some(token),
        ManagerEvent::RouteVerified { token, .. } => Some(token),
        ManagerEvent::PollConnected { token, .. } => Some(token),
        ManagerEvent::Failure { token, .. } => Some(token),
        ManagerEvent::RetryDue { token } => Some(token),
        ManagerEvent::SessionStarted { token } => Some(token),
        ManagerEvent::SpawnFailed { token, .. } => Some(token),
        _ => None,
    }
}

/// Along `events` from `m`, the status is always `Idle` or `Disconnecting`
/// and nothing starts the client again.
pub open spec fn stays_stopped(m: ManagerView, events: Seq<ManagerEvent>) -> bool
    decreases events.len(),
{
    if events.len() == 0 {
        m.state is Idle || m.state is Disconnecting
    } else {
        &&& m.state is Idle || m.state is Disconnecting
        &&& !event_starts_client(m, events[0])
        &&& stays_stopped(apply_event(m, events[0]), events.drop_first())
    }
}

proof fn lemma_stays_stopped(m: ManagerView, bound: u64, events: Seq<ManagerEvent>)
    requires
        m.state is Idle || m.state is Disconnecting,
        bound < m.lineage,
        m.lineage + events.len() < u64::MAX,
        forall|i: int|
            0 <= i < events.len() ==> (#[trigger] event_token(events[i]) matches Some(t) ==> t
                <= bound),
    ensures
        stays_stopped(m, events),
    decreases events.len(),
{
    if events.len() > 0 {
        let e = events[0];
        let m1 = apply_event(m, e);
        assert(event_token(events[0]) matches Some(t) ==> t <= bound);
        assert(m1.state is Idle || m1.state is Disconnecting);
        assert(bound < m1.lineage && m1.lineage + events.drop_first().len() < u64::MAX);
        assert forall|i: int| 0 <= i < events.drop_first().len() implies (#[trigger] event_token(
            events.drop_first()[i],
        ) matches Some(t) ==> t <= bound) by {
            assert(events.drop_first()[i] == events[i + 1]);
        }
        lemma_stays_stopped(m1, bound, events.drop_first());
    }
}

/// A disconnect ends the lineage for good: after an accepted disconnect
/// request, whatever the watchers and retry timers of earlier lineages
/// report, and however many disconnect polls, repeated disconnect requests
/// or shutdowns follow (with no new connect request), the status stays
/// `Idle` or `Disconnecting` and the client is never started again. The
/// tokens of earlier lineages are at most the lineage current at the
/// request; the run is too short to wrap the lineage counter around.
pub proof fn lemma_disconnect_ends_lineage(m: ManagerView, events: Seq<ManagerEvent>)
    requires
        request_disconnect_spec(m).1 is Ok,
        m.lineage + events.len() + 1 < u64::MAX,
        forall|i: int|
            0 <= i < events.len() ==> (#[trigger] event_token(events[i]) matches Some(t) ==> t
                <= m.lineage),
    ensures
        stays_stopped(request_disconnect_spec(m).0, events),
{
    lemma_stays_stopped(request_disconnect_spec(m).0, m.lineage, events);
}

/// A disconnect ends in `Idle`, ready for a new connection: at once when no
/// process was running, otherwise when the process has exited or the grace
/// period is over; the stop request is then cleared.
pub proof fn lemma_disconnect_then_connect(m: ManagerView, exited: bool, timed_out: bool)
    requires
        request_disconnect_spec(m).1 is Ok,
    ensures
        ({
            let (m1, r) = request_disconnect_spec(m);
            &&& r == Ok::<DisconnectStart, AetherError>(DisconnectStart::Stopped)
                ==> m1.state is Idle && accepts_connect_spec(m1.state)
            &&& r == Ok::<DisconnectStart, AetherError>(DisconnectStart::AwaitExit) && (exited
                || timed_out) ==> {
                let (m2, p) = poll_disconnect_spec(m1, exited, timed_out);
                &&& p is Finished
                &&& m2.state is Idle
                &&& accepts_connect_spec(m2.state)
                &&& !m2.user_requested_stop
                &&& !m2.has_session
            }
        }),
{
}

/// One attempt at a time: right after a connect request is accepted, a
/// second one is refused with `AlreadyRunning` and changes nothing.
pub proof fn lemma_one_attempt_at_a_time(m: ManagerView, port_live: bool, port_live2: bool)
    requires
        start_launch_spec(m, port_live).1 is Ok,
    ensures
        ({
            let m1 = start_launch_spec(m, port_live).0;
            start_launch_spec(m1, port_live2) == (m1, Err::<u64, AetherError>(
                AetherError::AlreadyRunning,
            ))
        }),
{
}

/// The retry budget is restored whenever a fresh lineage starts: on an
/// accepted connect request, on reaching `Connected`, and on an accepted
/// disconnect request.
pub proof fn lemma_budget_resets(m: ManagerView, port_live: bool, connected_at_ms: u64)
    ensures
        start_launch_spec(m, port_live).1 is Ok ==> start_launch_spec(m, port_live).0.retry_count
            == 0,
        !ignores(m, m.lineage) ==> route_verified_spec(
            m,
            m.lineage,
            VerifyResult::Good,
            false,
            connected_at_ms,
        ).0.retry_count == 0,
        request_disconnect_spec(m).1 is Ok ==> request_disconnect_spec(m).0.retry_count == 0,
{
}

/// A client exit is never overlooked while connecting: for the current
/// lineage with a running client, a poll that sees the process exit
/// forgets the process and records an unexpected failure of the connecting
/// phase with the exit in its message, whatever else the poll observed
/// (setup announced or not, setup finished, proxy port, deadline).
pub proof fn lemma_exit_always_noticed(
    m: ManagerView,
    exit: Seq<char>,
    announced: bool,
    prompts_done: bool,
    port_live: bool,
    timed_out: bool,
)
    requires
        !m.user_requested_stop,
        m.has_session,
    ensures
        ({
            let (m2, o) = failure_spec(
                ManagerView { has_session: false, ..m },
                m.lineage,
                "Aether exited before connecting ("@ + exit + ")"@,
                "connecting"@,
            );
            poll_connect_spec(m, m.lineage, announced, Some(exit), prompts_done, port_live, timed_out)
                == (m2, ConnectPoll::Failed { kill: false, outcome: o })
        }),
        !poll_connect_spec(m, m.lineage, announced, Some(exit), prompts_done, port_live, timed_out).0.has_session,
        poll_connect_spec(m, m.lineage, announced, Some(exit), prompts_done, port_live, timed_out).1
            is Failed,
{
}

/// A running client can always be stopped: whatever the status, while a
/// client process runs a disconnect request is accepted, Ctrl-C is to be
/// sent (`AwaitExit`), the status becomes `Disconnecting`, the stop request
/// is recorded and the lineage ends.
pub proof fn lemma_running_client_can_be_stopped(m: ManagerView)
    requires
        m.has_session,
    ensures
        request_disconnect_spec(m).1 == Ok::<DisconnectStart, AetherError>(
            DisconnectStart::AwaitExit,
        ),
        request_disconnect_spec(m).0.state is Disconnecting,
        request_disconnect_spec(m).0.user_requested_stop,
        request_disconnect_spec(m).0.has_session,
        request_disconnect_spec(m).0.lineage != m.lineage,
{
}

/// Connect requests are refused while anything is under way: from any
/// status other than `Idle` or `Error` a request is refused with
/// `AlreadyRunning` and changes nothing; from `Idle` or `Error` with the
/// port free it starts a new lineage in `Launching`.
pub proof fn lemma_connect_only_when_idle(m: ManagerView, port_live: bool)
    ensures
        !(m.state is Idle || m.state is Error) ==> start_launch_spec(m, port_live) == (m, Err::<
            u64,
            AetherError,
        >(AetherError::AlreadyRunning)),
        (m.state is Idle || m.state is Error) && !port_live ==> {
            let (m1, r) = start_launch_spec(m, port_live);
            &&& r is Ok
            &&& m1.state is Launching
            &&& m1.lineage != m.lineage
            &&& r == Ok::<u64, AetherError>(m1.lineage)
        },
{
}

/// A lost connection is never overlooked: for the current lineage with a
/// running client, a poll of the established connection that sees the
/// process exit forgets the process and records an unexpected failure of
/// the connected phase with the exit in its message; without an exit it
/// changes nothing.
pub proof fn lemma_connected_exit_noticed(m: ManagerView, exit: Seq<char>)
    requires
        !m.user_requested_stop,
        m.has_session,
    ensures
        ({
            let (m2, o) = failure_spec(
                ManagerView { has_session: false, ..m },
                m.lineage,
                "Lost connection unexpectedly ("@ + exit + ")"@,
                "connected"@,
            );
            poll_connected_spec(m, m.lineage, Some(exit)) == (m2, ConnectedPoll::Failed {
                outcome: o,
            })
        }),
        poll_connected_spec(m, m.lineage, None) == (m, ConnectedPoll::Wait),
{
}

/// Without a running client, a disconnect request cancels a pending retry
/// (the status goes straight to `Idle` and the lineage ends) and is refused
/// with `NotConnected` otherwise, changing nothing.
pub proof fn lemma_disconnect_without_client(m: ManagerView)
    requires
        !m.has_session,
    ensures
        m.state is Reconnecting ==> {
            let (m1, r) = request_disconnect_spec(m);
            &&& r == Ok::<DisconnectStart, AetherError>(DisconnectStart::Stopped)
            &&& m1.state is Idle
            &&& m1.user_requested_stop
            &&& m1.lineage != m.lineage
        },
        !(m.state is Reconnecting) ==> request_disconnect_spec(m) == (m, Err::<
            DisconnectStart,
            AetherError,
        >(AetherError::NotConnected)),
{
}

/// A retry of the current lineage that comes due with no stop requested
/// relaunches: the status becomes `Launching` and nothing else changes.
pub proof fn lemma_retry_relaunches(m: ManagerView)
    requires
        !m.user_requested_stop,
    ensures
        retry_due_spec(m, m.lineage) == (ManagerView { state: ConnectionStateView::Launching, ..m }, true),
{
}

} // verus!
