//! Configuration of a bootstrap client.

use crate::messages::MessageCaps;
use crate::signature::PublicKey;
use vstd::prelude::*;

verus! {

/// What a client is told before it bootstraps. Durations and times are in
/// milliseconds.
#[derive(Clone, Debug, PartialEq, Eq)]
pub struct BootstrapConfig {
    /// The servers to try: an address and the key that the server signs with.
    pub bootstrap_list: Vec<(String, PublicKey)>,
    /// Longest wait for a connection to open.
    pub connect_timeout: u64,
    /// Longest wait for the error that a server without free slots sends
    /// right after the connection opens.
    pub read_error_timeout: u64,
    /// Longest wait for a message.
    pub read_timeout: u64,
    /// Longest wait for a write to complete.
    pub write_timeout: u64,
    /// Longest wait for the write of an error report to complete.
    pub write_error_timeout: u64,
    /// Pause after every server of the list has been tried.
    pub retry_delay: u64,
    /// Largest round trip that is accepted.
    pub max_ping: u64,
    /// Most bytes per second in both directions together.
    pub max_bytes_read_write: u64,
    /// Largest message body.
    pub max_bootstrap_message_size: u32,
    /// Whether the local clock is aligned with the server's.
    pub enable_clock_synchronization: bool,
    /// Limits under which message bodies are decoded.
    pub message_caps: MessageCaps,
}

/// What the bootstrap gathers besides the final state itself.
#[derive(Clone, Debug, PartialEq, Eq)]
pub struct GlobalBootstrapState {
    /// The encoded peer list, once received.
    pub peers: Option<Vec<u8>>,
    /// The encoded consensus graph, once received.
    pub graph: Option<Vec<u8>>,
    /// What to add to the local clock to get the server's, in milliseconds.
    pub compensation_millis: i64,
}

impl GlobalBootstrapState {
    /// The state before anything was received.
    pub fn new() -> (state: GlobalBootstrapState)
        ensures
            state.peers is None,
            state.graph is None,
            state.compensation_millis == 0,
    {
        GlobalBootstrapState { peers: None, graph: None, compensation_millis: 0 }
    }
}

} // verus!
