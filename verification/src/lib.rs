//! Bootstrap client core: the framed, chain-signed transport, the session
//! state machine, the resumable state download and the failover policy of a
//! node that synchronises its final state from a list of bootstrap servers;
//! and the blocks of the graph with their compact encoding.
//!
//! The library performs no I/O. Every function maps plain values to plain
//! values; the caller owns the sockets, the clock and the final-state store.
//!
//! - `client`: the bootstrap as a state machine, from the choice of a server
//!   to the closing message.
//! - `client_binder`: the framing of one connection.
//! - `messages`, `client_message`, `server_message`, `fields`, `codec`,
//!   `min_be_int`: the messages and their encoding.
//! - `block`: blocks, headers and their identifiers.
//! - `hash`, `signature`, `random`: digests, signatures and randomness.
//! - `settings`, `error`: configuration and errors.

pub mod block;
pub mod client;
pub mod client_binder;
pub mod client_message;
pub mod codec;
pub mod error;
pub mod fields;
pub mod hash;
pub mod messages;
pub mod min_be_int;
pub mod random;
pub mod server_message;
pub mod settings;
pub mod signature;
