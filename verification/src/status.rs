//! Fixed facts about the client's local proxy and the timing policy around
//! it.
use vstd::prelude::*;
use crate::text::{decimal, decimal_chars, string_of};

verus! {

/// The local SOCKS5 port the client listens on once connected.
pub const SOCKS_PORT: u16 = 1819;

/// How long a connection attempt may take, in milliseconds. The client's
/// own route-discovery budget goes up to 120 s (MASQUE) and 80 s
/// (WireGuard); this must exceed both.
pub const CONNECT_TIMEOUT_MS: u64 = 150000;

/// How long to wait after Ctrl-C before force-killing, in milliseconds. The
/// client does not exit quickly on SIGINT, and nothing at the OS level is
/// left dangling by a hard kill, so a short grace period is enough.
pub const GRACEFUL_SHUTDOWN_GRACE_MS: u64 = 3000;

/// How many automatic retries follow an unexpected failure before the
/// attempt is given up with an error.
pub const MAX_AUTO_RETRIES: u32 = 3;

/// The wait before retry `attempt` (counted from one), in milliseconds.
pub open spec fn backoff_ms(attempt: u32) -> u64 {
    if attempt <= 1 {
        2000
    } else if attempt == 2 {
        5000
    } else {
        10000
    }
}

/// The wait before retry `attempt`, in milliseconds.
pub fn retry_backoff_ms(attempt: u32) -> (ms: u64)
    requires
        1 <= attempt <= MAX_AUTO_RETRIES,
    ensures
        ms == backoff_ms(attempt),
{
    if attempt <= 1 {
        2000
    } else if attempt == 2 {
        5000
    } else {
        10000
    }
}

/// The text of the proxy's address, `127.0.0.1:<port>`.
pub open spec fn socks_addr_text() -> Seq<char> {
    "127.0.0.1:"@ + decimal(SOCKS_PORT as nat)
}

/// The proxy's address as shown to the user.
pub fn socks_addr_string() -> (r: String)
    ensures
        r@ == socks_addr_text(),
{
    let mut r = String::from_str("127.0.0.1:");
    let port = string_of(&decimal_chars(SOCKS_PORT as u64));
    r.append(port.as_str());
    r
}

/// What a check of the established tunnel found.
#[derive(Clone, Copy, Debug, PartialEq, Eq, Structural)]
pub enum VerifyResult {
    /// Traffic flows through the tunnel.
    Good,
    /// The tunnel works but exits through an address that is blocked.
    BadRoute,
    /// The tunnel is not usable yet.
    Failed,
}

} // verus!
