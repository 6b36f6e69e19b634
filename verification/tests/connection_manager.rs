use aether_core::manager::{
    AetherError, AetherManager, ConnectPoll, ConnectedPoll, ConnectionState, DisconnectPoll,
    DisconnectStart, FailureOutcome, RouteOutcome,
};
use aether_core::status::{
    retry_backoff_ms, socks_addr_string, VerifyResult, MAX_AUTO_RETRIES, SOCKS_PORT,
};

fn launched() -> (AetherManager, u64) {
    let mut m = AetherManager::new();
    let token = m.start_connect(None, false).unwrap();
    assert!(m.session_started(token));
    (m, token)
}

#[test]
fn new_manager_is_idle() {
    let m = AetherManager::new();
    assert!(matches!(m.status(), ConnectionState::Idle));
    assert!(m.accepts_connect());
    assert_eq!(m.lineage(), 0);
}

#[test]
fn start_launches_when_binary_present() {
    let mut m = AetherManager::new();
    let token = m.start_connect(None, false).unwrap();
    assert_eq!(token, 1);
    assert_eq!(m.lineage(), 1);
    assert!(matches!(m.status(), ConnectionState::Launching));
}

#[test]
fn missing_binary_is_refused_and_changes_nothing() {
    let mut m = AetherManager::new();
    match m.start_connect(Some("/res/binaries/aether".to_string()), false) {
        Err(AetherError::BinaryMissing(p)) => assert_eq!(p, "/res/binaries/aether"),
        r => panic!("unexpected {:?}", r),
    }
    assert!(matches!(m.status(), ConnectionState::Idle));
    assert_eq!(m.lineage(), 0);
    // Also while running: the missing executable is reported first.
    let (mut m, _) = launched();
    assert!(matches!(
        m.start_connect(Some("x".to_string()), true),
        Err(AetherError::BinaryMissing(_))
    ));
    assert!(matches!(m.status(), ConnectionState::Launching));
}

#[test]
fn port_in_use_is_refused() {
    let mut m = AetherManager::new();
    match m.start_connect(None, true) {
        Err(AetherError::PortInUse(p)) => assert_eq!(p, SOCKS_PORT),
        r => panic!("unexpected {:?}", r),
    }
    assert!(matches!(m.status(), ConnectionState::Idle));
}

#[test]
fn second_start_is_already_running() {
    let mut m = AetherManager::new();
    m.start_connect(None, false).unwrap();
    assert!(matches!(m.start_connect(None, false), Err(AetherError::AlreadyRunning)));
    assert!(matches!(m.status(), ConnectionState::Launching));
}

#[test]
fn spawn_failure_is_an_error_of_launching() {
    let mut m = AetherManager::new();
    let token = m.start_connect(None, false).unwrap();
    m.spawn_failed(token, "no pty".to_string());
    match m.status() {
        ConnectionState::Error { message, phase } => {
            assert_eq!(message, "no pty");
            assert_eq!(phase, "launching");
        }
        s => panic!("unexpected {:?}", s),
    }
    assert!(m.accepts_connect());
}

#[test]
fn retries_then_gives_up() {
    let (mut m, t) = launched();
    for k in 1..=MAX_AUTO_RETRIES {
        let o = m.unexpected_failure(t, "boom", "connecting");
        assert_eq!(o, FailureOutcome::Retry { attempt: k, backoff_ms: retry_backoff_ms(k) });
        match m.status() {
            ConnectionState::Reconnecting { attempt, max_attempts } => {
                assert_eq!(attempt, k);
                assert_eq!(max_attempts, MAX_AUTO_RETRIES);
            }
            s => panic!("unexpected {:?}", s),
        }
        assert!(m.retry_due(t));
        assert!(matches!(m.status(), ConnectionState::Launching));
        assert!(m.session_started(t));
    }
    assert_eq!(m.unexpected_failure(t, "boom", "connecting"), FailureOutcome::GaveUp);
    match m.status() {
        ConnectionState::Error { message, phase } => {
            assert_eq!(message, format!("boom (gave up after {} retries)", MAX_AUTO_RETRIES));
            assert_eq!(phase, "connecting");
        }
        s => panic!("unexpected {:?}", s),
    }
}

#[test]
fn backoff_values() {
    assert_eq!(retry_backoff_ms(1), 2000);
    assert_eq!(retry_backoff_ms(2), 5000);
    assert_eq!(retry_backoff_ms(3), 10000);
}

#[test]
fn connect_poll_sequence() {
    let (mut m, t) = launched();
    assert_eq!(m.poll_connect(t, false, None, false, false, false), ConnectPoll::Wait);
    assert_eq!(m.poll_connect(t, false, None, true, false, false), ConnectPoll::Announce);
    assert!(matches!(m.status(), ConnectionState::Connecting));
    assert_eq!(m.poll_connect(t, true, None, true, false, false), ConnectPoll::Wait);
    assert_eq!(m.poll_connect(t, true, None, true, true, false), ConnectPoll::VerifyRoute);
    assert_eq!(m.route_verified(t, VerifyResult::Failed, false, 5), RouteOutcome::KeepWaiting);
    assert_eq!(m.route_verified(t, VerifyResult::Good, false, 1234), RouteOutcome::Connected);
    match m.status() {
        ConnectionState::Connected { socks_addr, connected_at_ms } => {
            assert_eq!(socks_addr, "127.0.0.1:1819");
            assert_eq!(connected_at_ms, 1234);
        }
        s => panic!("unexpected {:?}", s),
    }
}

#[test]
fn socks_address_text() {
    assert_eq!(socks_addr_string(), "127.0.0.1:1819");
}

#[test]
fn exit_before_connecting_is_retried() {
    let (mut m, t) = launched();
    let r = m.poll_connect(t, false, Some("exit status: 1".to_string()), false, false, false);
    assert_eq!(
        r,
        ConnectPoll::Failed {
            kill: false,
            outcome: FailureOutcome::Retry { attempt: 1, backoff_ms: retry_backoff_ms(1) }
        }
    );
}

#[test]
fn exit_message_reaches_error() {
    let (mut m, t) = launched();
    for _ in 0..MAX_AUTO_RETRIES {
        m.unexpected_failure(t, "x", "connecting");
        m.retry_due(t);
        m.session_started(t);
    }
    let r = m.poll_connect(t, false, Some("signal 9".to_string()), false, false, false);
    assert_eq!(r, ConnectPoll::Failed { kill: false, outcome: FailureOutcome::GaveUp });
    match m.status() {
        ConnectionState::Error { message, .. } => {
            assert_eq!(message, "Aether exited before connecting (signal 9) (gave up after 3 retries)")
        }
        s => panic!("unexpected {:?}", s),
    }
}

#[test]
fn timeout_kills_and_retries() {
    let (mut m, t) = launched();
    let r = m.poll_connect(t, false, None, false, false, true);
    assert_eq!(
        r,
        ConnectPoll::Failed {
            kill: true,
            outcome: FailureOutcome::Retry { attempt: 1, backoff_ms: retry_backoff_ms(1) }
        }
    );
    assert!(matches!(m.status(), ConnectionState::Reconnecting { attempt: 1, .. }));
}

#[test]
fn past_deadline_a_failing_route_check_times_out() {
    let (mut m, t) = launched();
    // The port answers but the tunnel check keeps failing: once the deadline
    // has passed, the attempt ends as timed out.
    assert_eq!(m.poll_connect(t, true, None, true, true, true), ConnectPoll::VerifyRoute);
    assert_eq!(m.route_verified(t, VerifyResult::Failed, false, 0), RouteOutcome::KeepWaiting);
    let r = m.route_verified(t, VerifyResult::Failed, true, 0);
    assert_eq!(
        r,
        RouteOutcome::Failed {
            kill: true,
            outcome: FailureOutcome::Retry { attempt: 1, backoff_ms: retry_backoff_ms(1) }
        }
    );
}

#[test]
fn past_deadline_setup_end_is_still_announced() {
    let (mut m, t) = launched();
    assert_eq!(m.poll_connect(t, false, None, true, false, true), ConnectPoll::Announce);
    assert!(matches!(m.status(), ConnectionState::Connecting));
}

#[test]
fn past_deadline_a_working_route_still_connects() {
    let (mut m, t) = launched();
    assert_eq!(m.poll_connect(t, true, None, true, true, true), ConnectPoll::VerifyRoute);
    assert_eq!(m.route_verified(t, VerifyResult::Good, true, 7), RouteOutcome::Connected);
}

#[test]
fn past_deadline_a_blocked_route_is_reported_as_blocked() {
    let (mut m, t) = launched();
    for _ in 0..MAX_AUTO_RETRIES {
        m.unexpected_failure(t, "x", "connecting");
        m.retry_due(t);
        m.session_started(t);
    }
    assert_eq!(
        m.route_verified(t, VerifyResult::BadRoute, true, 0),
        RouteOutcome::Failed { kill: true, outcome: FailureOutcome::GaveUp }
    );
    match m.status() {
        ConnectionState::Error { message, .. } => assert!(message.starts_with("Assigned IP was strictly blocked")),
        s => panic!("unexpected {:?}", s),
    }
}

#[test]
fn bad_route_kills_and_retries() {
    let (mut m, t) = launched();
    let r = m.route_verified(t, VerifyResult::BadRoute, false, 0);
    assert_eq!(
        r,
        RouteOutcome::Failed {
            kill: true,
            outcome: FailureOutcome::Retry { attempt: 1, backoff_ms: retry_backoff_ms(1) }
        }
    );
}

#[test]
fn connected_restores_budget() {
    let (mut m, t) = launched();
    for _ in 0..2 {
        m.unexpected_failure(t, "x", "connecting");
        m.retry_due(t);
        m.session_started(t);
    }
    assert_eq!(m.route_verified(t, VerifyResult::Good, false, 1), RouteOutcome::Connected);
    let o = m.poll_connected(t, Some("exit status: 2".to_string()));
    assert_eq!(
        o,
        ConnectedPoll::Failed {
            outcome: FailureOutcome::Retry { attempt: 1, backoff_ms: retry_backoff_ms(1) }
        }
    );
}

#[test]
fn connected_poll_waits_while_running() {
    let (mut m, t) = launched();
    m.route_verified(t, VerifyResult::Good, false, 1);
    assert_eq!(m.poll_connected(t, None), ConnectedPoll::Wait);
}

#[test]
fn disconnect_without_session_is_not_connected() {
    let mut m = AetherManager::new();
    assert!(matches!(m.request_disconnect(), Err(AetherError::NotConnected)));
    assert!(matches!(m.status(), ConnectionState::Idle));
}

#[test]
fn disconnect_running_session() {
    let (mut m, t) = launched();
    assert_eq!(m.request_disconnect().unwrap(), DisconnectStart::AwaitExit);
    assert!(matches!(m.status(), ConnectionState::Disconnecting));
    assert_eq!(m.poll_connect(t, false, Some("x".into()), false, false, false), ConnectPoll::Stop);
    assert_eq!(m.poll_connected(t, Some("x".into())), ConnectedPoll::Stop);
    assert_eq!(m.unexpected_failure(t, "x", "connected"), FailureOutcome::Ignored);
    assert!(!m.retry_due(t));
    assert_eq!(m.route_verified(t, VerifyResult::Good, false, 0), RouteOutcome::Stop);
    assert_eq!(m.poll_disconnect(false, false), DisconnectPoll::Wait);
    assert_eq!(m.poll_disconnect(false, true), DisconnectPoll::Finished { kill: true });
    assert!(matches!(m.status(), ConnectionState::Idle));
    assert!(m.accepts_connect());
}

#[test]
fn stale_watcher_after_finished_disconnect_is_ignored() {
    let (mut m, t) = launched();
    m.request_disconnect().unwrap();
    assert_eq!(m.poll_disconnect(true, false), DisconnectPoll::Finished { kill: false });
    // The old attempt's watcher times out after the disconnect has finished.
    assert_eq!(m.poll_connect(t, false, None, false, false, true), ConnectPoll::Stop);
    assert!(!m.retry_due(t));
    assert!(!m.session_started(t));
    assert!(matches!(m.status(), ConnectionState::Idle));
}

#[test]
fn stale_retry_after_new_connect_is_ignored() {
    let (mut m, t) = launched();
    m.unexpected_failure(t, "drop", "connected");
    assert_eq!(m.request_disconnect().unwrap(), DisconnectStart::Stopped);
    let t2 = m.start_connect(None, false).unwrap();
    assert_ne!(t, t2);
    assert!(m.session_started(t2));
    // The first lineage's pending retry wakes up: it must not start a second client.
    assert!(!m.retry_due(t));
    assert!(matches!(m.status(), ConnectionState::Launching));
    assert_eq!(m.poll_connect(t2, false, None, false, false, false), ConnectPoll::Wait);
}

#[test]
fn disconnect_after_exit_needs_no_kill() {
    let (mut m, _) = launched();
    m.request_disconnect().unwrap();
    assert_eq!(m.poll_disconnect(true, false), DisconnectPoll::Finished { kill: false });
}

#[test]
fn disconnect_while_reconnecting() {
    let (mut m, t) = launched();
    m.unexpected_failure(t, "drop", "connected");
    assert_eq!(m.request_disconnect().unwrap(), DisconnectStart::Stopped);
    assert!(matches!(m.status(), ConnectionState::Idle));
    assert!(!m.retry_due(t), "the pending retry must not start");
}

#[test]
fn shutdown_reports_session() {
    let (mut m, _) = launched();
    assert!(m.shutdown());
    assert!(!m.shutdown());
    assert!(matches!(m.request_disconnect(), Err(AetherError::NotConnected)));
}

#[test]
fn failure_room_check() {
    let (m, t) = launched();
    assert!(m.can_record_failure(t));
    assert!(m.can_record_failure(t + 1));
}

#[test]
fn invariant_check_runs() {
    let (m, _) = launched();
    m.check_invariant();
}
