//! The messages of the bootstrap protocol.

use vstd::prelude::*;

verus! {

/// A position in the block graph.
#[derive(Clone, Copy, Debug, PartialEq, Eq, Structural)]
pub struct Slot {
    pub period: u64,
    pub thread: u8,
}

/// The identifier of a deferred message of the asynchronous pool.
#[derive(Clone, Copy, Debug, PartialEq, Eq, Structural)]
pub struct AsyncMessageId {
    pub fee: u64,
    pub slot: Slot,
    pub index: u64,
}

/// The version of a node: a network instance and two numbers.
#[derive(Clone, Copy, Debug, PartialEq, Eq)]
pub struct Version {
    pub instance: [u8; 4],
    pub major: u32,
    pub minor: u32,
}

/// Whether a node of version `ours` can bootstrap from one of version
/// `theirs`: same network instance, same major number.
pub open spec fn spec_is_compatible(ours: Version, theirs: Version) -> bool {
    ours.instance@ == theirs.instance@ && ours.major == theirs.major
}

impl Version {
    /// Whether a node of this version can bootstrap from one of version
    /// `other`.
    pub fn is_compatible(&self, other: &Version) -> (compatible: bool)
        ensures
            compatible == spec_is_compatible(*self, *other),
    {
        let same = self.instance[0] == other.instance[0] && self.instance[1] == other.instance[1]
            && self.instance[2] == other.instance[2] && self.instance[3] == other.instance[3];
        assert(same == (self.instance@ =~= other.instance@));
        same && self.major == other.major
    }
}

/// Number of bytes of an encoded version.
pub const VERSION_SIZE_BYTES: usize = 12;

/// The limits under which a message body is read.
#[derive(Clone, Copy, Debug, PartialEq, Eq)]
pub struct MessageCaps {
    /// Number of threads; the thread of every slot is below it.
    pub thread_count: u8,
    /// Longest ledger key of a resume cursor.
    pub max_datastore_key_length: u32,
    /// Longest error text, in bytes.
    pub max_bootstrap_error_length: u32,
    /// Longest of the four parts of a chunk of final state.
    pub max_bootstrap_final_state_parts_size: u32,
    /// Longest encoded set of changes of one kind at one slot.
    pub max_state_changes_size: u32,
    /// Most slots whose changes one chunk may carry.
    pub max_changes_slot_count: u32,
    /// Longest encoded peer list.
    pub max_bootstrap_peers_size: u32,
    /// Longest encoded consensus graph.
    pub max_bootstrap_graph_size: u32,
}

/// What the client sends.
#[derive(Clone, Debug, PartialEq, Eq)]
pub enum BootstrapClientMessage {
    /// Asks for the next chunk of final state after the given resume cursor.
    AskFinalStatePart {
        last_key: Option<Vec<u8>>,
        slot: Option<Slot>,
        last_async_message_id: Option<AsyncMessageId>,
        last_cycle: Option<u64>,
        last_credits_slot: Option<Slot>,
    },
    /// Asks for the peer list.
    AskBootstrapPeers,
    /// Asks for the consensus graph.
    AskConsensusState,
    /// Tells the server that the bootstrap is complete.
    BootstrapSuccess,
    /// Tells the server why the client gives up.
    BootstrapError { error: String },
}

/// The mathematical content of a `BootstrapClientMessage`.
pub enum ClientMessageView {
    AskFinalStatePart {
        last_key: Option<Seq<u8>>,
        slot: Option<Slot>,
        last_async_message_id: Option<AsyncMessageId>,
        last_cycle: Option<u64>,
        last_credits_slot: Option<Slot>,
    },
    AskBootstrapPeers,
    AskConsensusState,
    BootstrapSuccess,
    BootstrapError { error: Seq<char> },
}

/// The content of an optional byte string.
pub open spec fn opt_bytes_view(o: Option<Vec<u8>>) -> Option<Seq<u8>> {
    match o {
        Some(b) => Some(b@),
        None => None,
    }
}

impl View for BootstrapClientMessage {
    type V = ClientMessageView;

    open spec fn view(&self) -> ClientMessageView {
        match *self {
            BootstrapClientMessage::AskFinalStatePart {
                last_key,
                slot,
                last_async_message_id,
                last_cycle,
                last_credits_slot,
            } => ClientMessageView::AskFinalStatePart {
                last_key: opt_bytes_view(last_key),
                slot,
                last_async_message_id,
                last_cycle,
                last_credits_slot,
            },
            BootstrapClientMessage::AskBootstrapPeers => ClientMessageView::AskBootstrapPeers,
            BootstrapClientMessage::AskConsensusState => ClientMessageView::AskConsensusState,
            BootstrapClientMessage::BootstrapSuccess => ClientMessageView::BootstrapSuccess,
            BootstrapClientMessage::BootstrapError { error } => ClientMessageView::BootstrapError {
                error: error@,
            },
        }
    }
}

/// Tag byte of `AskBootstrapPeers`.
pub const TAG_ASK_BOOTSTRAP_PEERS: u8 = 0;

/// Tag byte of `AskConsensusState`.
pub const TAG_ASK_CONSENSUS_STATE: u8 = 1;

/// Tag byte of `AskFinalStatePart`.
pub const TAG_ASK_FINAL_STATE_PART: u8 = 2;

/// Tag byte of the `BootstrapError` of a client.
pub const TAG_CLIENT_ERROR: u8 = 3;

/// Tag byte of `BootstrapSuccess`.
pub const TAG_BOOTSTRAP_SUCCESS: u8 = 4;


/// The changes that one slot made to the final state, each kind encoded.
#[derive(Clone, Debug, PartialEq, Eq)]
pub struct StateChanges {
    pub ledger_changes: Vec<u8>,
    pub async_pool_changes: Vec<u8>,
    pub roll_state_changes: Vec<u8>,
}

/// The mathematical content of `StateChanges`.
pub struct StateChangesView {
    pub ledger_changes: Seq<u8>,
    pub async_pool_changes: Seq<u8>,
    pub roll_state_changes: Seq<u8>,
}

impl View for StateChanges {
    type V = StateChangesView;

    open spec fn view(&self) -> StateChangesView {
        StateChangesView {
            ledger_changes: self.ledger_changes@,
            async_pool_changes: self.async_pool_changes@,
            roll_state_changes: self.roll_state_changes@,
        }
    }
}

/// What the server sends.
#[derive(Clone, Debug, PartialEq, Eq)]
pub enum BootstrapServerMessage {
    /// The server's clock, in milliseconds, and its version.
    BootstrapTime { server_time: u64, version: Version },
    /// A chunk of final state as of `slot`, with the changes that bring the
    /// chunks sent before up to that slot, in the order to apply them.
    FinalStatePart {
        ledger_data: Vec<u8>,
        async_pool_part: Vec<u8>,
        pos_cycle_part: Vec<u8>,
        pos_credits_part: Vec<u8>,
        slot: Slot,
        final_state_changes: Vec<(Slot, StateChanges)>,
    },
    /// No final state is left to send.
    FinalStateFinished,
    /// The slot of the resume cursor is too old to continue from.
    SlotTooOld,
    /// The encoded peer list.
    BootstrapPeers { peers: Vec<u8> },
    /// The encoded consensus graph.
    ConsensusState { graph: Vec<u8> },
    /// The server refuses, and says why.
    BootstrapError { error: String },
}

/// The mathematical content of a `BootstrapServerMessage`.
pub enum ServerMessageView {
    BootstrapTime { server_time: u64, version: Version },
    FinalStatePart {
        ledger_data: Seq<u8>,
        async_pool_part: Seq<u8>,
        pos_cycle_part: Seq<u8>,
        pos_credits_part: Seq<u8>,
        slot: Slot,
        final_state_changes: Seq<(Slot, StateChangesView)>,
    },
    FinalStateFinished,
    SlotTooOld,
    BootstrapPeers { peers: Seq<u8> },
    ConsensusState { graph: Seq<u8> },
    BootstrapError { error: Seq<char> },
}

/// The content of a list of changes by slot.
pub open spec fn changes_view(list: Seq<(Slot, StateChanges)>) -> Seq<(Slot, StateChangesView)> {
    Seq::new(list.len(), |i: int| (list[i].0, list[i].1@))
}

impl View for BootstrapServerMessage {
    type V = ServerMessageView;

    open spec fn view(&self) -> ServerMessageView {
        match *self {
            BootstrapServerMessage::BootstrapTime {
                server_time,
                version,
            } => ServerMessageView::BootstrapTime { server_time, version },
            BootstrapServerMessage::FinalStatePart {
                ledger_data,
                async_pool_part,
                pos_cycle_part,
                pos_credits_part,
                slot,
                final_state_changes,
            } => ServerMessageView::FinalStatePart {
                ledger_data: ledger_data@,
                async_pool_part: async_pool_part@,
                pos_cycle_part: pos_cycle_part@,
                pos_credits_part: pos_credits_part@,
                slot,
                final_state_changes: changes_view(final_state_changes@),
            },
            BootstrapServerMessage::FinalStateFinished => ServerMessageView::FinalStateFinished,
            BootstrapServerMessage::SlotTooOld => ServerMessageView::SlotTooOld,
            BootstrapServerMessage::BootstrapPeers { peers } => ServerMessageView::BootstrapPeers {
                peers: peers@,
            },
            BootstrapServerMessage::ConsensusState { graph } => ServerMessageView::ConsensusState {
                graph: graph@,
            },
            BootstrapServerMessage::BootstrapError { error } => ServerMessageView::BootstrapError {
                error: error@,
            },
        }
    }
}

/// Tag byte of `BootstrapTime`.
pub const TAG_BOOTSTRAP_TIME: u8 = 0;

/// Tag byte of `BootstrapPeers`.
pub const TAG_BOOTSTRAP_PEERS: u8 = 1;

/// Tag byte of `ConsensusState`.
pub const TAG_CONSENSUS_STATE: u8 = 2;

/// Tag byte of `FinalStatePart`.
pub const TAG_FINAL_STATE_PART: u8 = 3;

/// Tag byte of `FinalStateFinished`.
pub const TAG_FINAL_STATE_FINISHED: u8 = 4;

/// Tag byte of `SlotTooOld`.
pub const TAG_SLOT_TOO_OLD: u8 = 5;

/// Tag byte of the `BootstrapError` of a server.
pub const TAG_SERVER_ERROR: u8 = 6;

} // verus!
