//! Error kinds of a bootstrap session.

use vstd::prelude::*;
use vstd::string::StringExecFns;

verus! {

/// Why a bootstrap attempt, or one step of it, failed.
#[derive(Debug, Clone, PartialEq, Eq)]
pub enum BootstrapError {
    /// A timed operation exceeded its bound.
    Timeout,
    /// The duplex stream could not be opened, or was lost.
    ConnectFailed,
    /// A length field, or a message to send, exceeds the maximum message size.
    OversizeFrame,
    /// The signature of a received frame does not verify.
    BadSignature,
    /// A frame could not be decoded under the configured size caps.
    BadFrame,
    /// The server sent a message that the current phase does not expect.
    UnexpectedMessage,
    /// The server runs a version we are not compatible with.
    IncompatibleVersion,
    /// The measured round trip exceeds the configured maximum.
    PingTooHigh,
    /// The server sent an error; carries the server's text.
    ServerRefused(String),
    /// The bootstrap list is empty.
    NoServers,
    /// The clock compensation does not fit in signed 64-bit milliseconds.
    ClockOverflow,
    /// The episode's end timestamp has passed.
    EpisodeEnded,
    /// The operating system could not provide randomness.
    EntropyUnavailable,
}

impl BootstrapError {
    /// The text that stands for this error when it is reported to a peer.
    pub open spec fn spec_text(&self) -> Seq<char> {
        match self {
            BootstrapError::Timeout => "operation timed out"@,
            BootstrapError::ConnectFailed => "connection failed"@,
            BootstrapError::OversizeFrame => "message exceeds the maximum size"@,
            BootstrapError::BadSignature => "invalid signature"@,
            BootstrapError::BadFrame => "malformed message"@,
            BootstrapError::UnexpectedMessage => "unexpected message"@,
            BootstrapError::IncompatibleVersion => "incompatible version"@,
            BootstrapError::PingTooHigh => "bootstrap ping too high"@,
            BootstrapError::ServerRefused(text) => text@,
            BootstrapError::NoServers => "no bootstrap nodes found in list"@,
            BootstrapError::ClockOverflow => "clock compensation out of range"@,
            BootstrapError::EpisodeEnded => "this episode has come to an end"@,
            BootstrapError::EntropyUnavailable => "no randomness available"@,
        }
    }

    /// Renders the error as text.
    pub fn to_text(&self) -> (text: String)
        ensures
            text@ == self.spec_text(),
    {
        match self {
            BootstrapError::Timeout => String::from_str("operation timed out"),
            BootstrapError::ConnectFailed => String::from_str("connection failed"),
            BootstrapError::OversizeFrame => String::from_str("message exceeds the maximum size"),
            BootstrapError::BadSignature => String::from_str("invalid signature"),
            BootstrapError::BadFrame => String::from_str("malformed message"),
            BootstrapError::UnexpectedMessage => String::from_str("unexpected message"),
            BootstrapError::IncompatibleVersion => String::from_str("incompatible version"),
            BootstrapError::PingTooHigh => String::from_str("bootstrap ping too high"),
            BootstrapError::ServerRefused(text) => text.clone(),
            BootstrapError::NoServers => String::from_str("no bootstrap nodes found in list"),
            BootstrapError::ClockOverflow => String::from_str("clock compensation out of range"),
            BootstrapError::EpisodeEnded => String::from_str("this episode has come to an end"),
            BootstrapError::EntropyUnavailable => String::from_str("no randomness available"),
        }
    }
}

} // verus!
