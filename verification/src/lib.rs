//! Typed client binding for the JSON-RPC protocol of a torrent-management
//! daemon.
//!
//! The crate has two layers: a wire-level envelope codec (a JSON value type
//! with an exact rendering and parsing specification, and the request /
//! response envelope shapes built on it), and a transport/session engine that
//! owns the retry state machine for the daemon's session-token handshake.
//! Network I/O itself is left to the embedding application; the engine here is
//! driven by the replies the application hands back.

use vstd::prelude::*;

pub mod envelope;
pub mod transport;
pub mod json;

verus! {

/// The number of attempts one logical call may spend before the session
/// handshake is declared to have failed.
pub const RETRIES: usize = 5;

} // verus!
