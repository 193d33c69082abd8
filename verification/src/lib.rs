//! Test doubles for a message-oriented node: a programmable mock server that
//! speaks a framed text/binary protocol, a registry for multi-node test
//! clusters, and a privilege-drop state machine.

use vstd::prelude::*;

pub mod cluster;
pub mod codec;
pub mod frames;
pub mod laws;
pub mod privilege_drop;
pub mod server;
pub mod text;
pub mod utils;

pub use frames::MessageBody;
pub use frames::MessagePath;
pub use frames::QueuedFrame;

verus! {

/// Reserved byte value sent as a single-byte binary frame when a
/// conversational request finds the response queue empty.
pub const EMPTY_QUEUE_SENTINEL: u8 = 101;

} // verus!
