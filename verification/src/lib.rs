//! Decision logic for driving an interactive command-line tunnel client
//! from a desktop shell: terminal-output cleanup, answering the client's
//! setup prompts, and the connection life cycle with bounded automatic
//! retries.
use vstd::prelude::*;

pub mod text;
pub mod ansi;
pub mod prompts;
pub mod pty;
pub mod status;
pub mod manager;

verus! {

} // verus!
