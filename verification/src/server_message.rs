//! The encoding of the messages that the server sends.
//!
//! A body is one tag byte and the fields of the message. It is read under
//! size caps and must be used up to its last byte.

use crate::codec::{
    dec_blob, dec_u32, dec_u64, dec_u8, enc_blob, enc_u32, enc_u64, enc_u8, lemma_concat_assoc,
    lemma_dec_enc_blob, lemma_dec_enc_u32, lemma_dec_enc_u64, lemma_dec_enc_u8,
    lemma_enc_dec_blob, lemma_enc_dec_u32, lemma_enc_dec_u64, lemma_enc_dec_u8, put_blob,
    put_u32, put_u64, put_u8, Reader,
};
use crate::error::BootstrapError;
use crate::fields::{
    dec_slot, dec_text, dec_version, enc_slot, enc_text, enc_version, lemma_dec_enc_slot,
    lemma_dec_enc_text, lemma_dec_enc_version, lemma_enc_dec_slot, lemma_enc_dec_text,
    lemma_enc_dec_version, put_slot, put_text, put_version, take_slot, take_text, take_version,
};
use crate::messages::{
    changes_view, BootstrapServerMessage, MessageCaps, ServerMessageView, Slot, StateChanges,
    StateChangesView, TAG_BOOTSTRAP_PEERS, TAG_BOOTSTRAP_TIME, TAG_CONSENSUS_STATE,
    TAG_FINAL_STATE_FINISHED, TAG_FINAL_STATE_PART, TAG_SERVER_ERROR, TAG_SLOT_TOO_OLD,
};
use vstd::prelude::*;
use vstd::utf8::encode_utf8;

verus! {

/// The encoding of the changes of one slot.
#[verifier::opaque]
pub open spec fn enc_entry(entry: (Slot, StateChangesView)) -> Seq<u8> {
    enc_slot(entry.0) + enc_blob(entry.1.ledger_changes) + enc_blob(entry.1.async_pool_changes)
        + enc_blob(entry.1.roll_state_changes)
}

/// Reads the changes of one slot off the front of `s`.
#[verifier::opaque]
pub open spec fn dec_entry(s: Seq<u8>, caps: MessageCaps) -> Option<
    ((Slot, StateChangesView), Seq<u8>),
> {
    match dec_slot(s, caps.thread_count) {
        Some((slot, s)) => match dec_blob(s, caps.max_state_changes_size) {
            Some((ledger_changes, s)) => match dec_blob(s, caps.max_state_changes_size) {
                Some((async_pool_changes, s)) => match dec_blob(s, caps.max_state_changes_size) {
                    Some((roll_state_changes, s)) => Some(
                        (
                            (
                                slot,
                                StateChangesView {
                                    ledger_changes,
                                    async_pool_changes,
                                    roll_state_changes,
                                },
                            ),
                            s,
                        ),
                    ),
                    None => None,
                },
                None => None,
            },
            None => None,
        },
        None => None,
    }
}

/// The entries of a list, one after the other.
pub open spec fn enc_entries(list: Seq<(Slot, StateChangesView)>) -> Seq<u8>
    decreases list.len(),
{
    if list.len() == 0 {
        Seq::empty()
    } else {
        enc_entry(list[0]) + enc_entries(list.skip(1))
    }
}

/// Reads `count` entries.
pub open spec fn dec_entries(s: Seq<u8>, count: nat, caps: MessageCaps) -> Option<
    (Seq<(Slot, StateChangesView)>, Seq<u8>),
>
    decreases count,
{
    if count == 0 {
        Some((Seq::empty(), s))
    } else {
        match dec_entry(s, caps) {
            Some((entry, rest)) => match dec_entries(rest, (count - 1) as nat, caps) {
                Some((tail, rest)) => Some((seq![entry] + tail, rest)),
                None => None,
            },
            None => None,
        }
    }
}

/// Whether the changes of one slot respect the caps.
pub open spec fn entry_within(entry: (Slot, StateChangesView), caps: MessageCaps) -> bool {
    &&& entry.0.thread < caps.thread_count
    &&& entry.1.ledger_changes.len() <= caps.max_state_changes_size
    &&& entry.1.async_pool_changes.len() <= caps.max_state_changes_size
    &&& entry.1.roll_state_changes.len() <= caps.max_state_changes_size
}

/// The four parts of a chunk of final state, one after the other.
#[verifier::opaque]
pub open spec fn enc_parts(parts: (Seq<u8>, Seq<u8>, Seq<u8>, Seq<u8>)) -> Seq<u8> {
    enc_blob(parts.0) + enc_blob(parts.1) + enc_blob(parts.2) + enc_blob(parts.3)
}

/// Reads four parts of at most `cap` bytes each.
#[verifier::opaque]
pub open spec fn dec_parts(s: Seq<u8>, cap: u32) -> Option<
    ((Seq<u8>, Seq<u8>, Seq<u8>, Seq<u8>), Seq<u8>),
> {
    match dec_blob(s, cap) {
        Some((a, s)) => match dec_blob(s, cap) {
            Some((b, s)) => match dec_blob(s, cap) {
                Some((c, s)) => match dec_blob(s, cap) {
                    Some((d, s)) => Some(((a, b, c, d), s)),
                    None => None,
                },
                None => None,
            },
            None => None,
        },
        None => None,
    }
}

/// A list of changes by slot behind its count.
#[verifier::opaque]
pub open spec fn enc_changes(list: Seq<(Slot, StateChangesView)>) -> Seq<u8> {
    enc_u32(list.len() as u32) + enc_entries(list)
}

/// Reads a count within the cap and as many entries.
#[verifier::opaque]
pub open spec fn dec_changes(s: Seq<u8>, caps: MessageCaps) -> Option<
    (Seq<(Slot, StateChangesView)>, Seq<u8>),
> {
    match dec_u32(s) {
        Some((count, s)) => if count > caps.max_changes_slot_count {
            None
        } else {
            dec_entries(s, count as nat, caps)
        },
        None => None,
    }
}

/// Whether every entry of a list respects the caps.
pub open spec fn entries_within(list: Seq<(Slot, StateChangesView)>, caps: MessageCaps) -> bool
    decreases list.len(),
{
    list.len() > 0 ==> entry_within(list[0], caps) && entries_within(list.skip(1), caps)
}

impl ServerMessageView {
    /// Whether the message respects the caps under which it will be read.
    pub open spec fn within(self, caps: MessageCaps) -> bool {
        match self {
            ServerMessageView::FinalStatePart {
                ledger_data,
                async_pool_part,
                pos_cycle_part,
                pos_credits_part,
                slot,
                final_state_changes,
            } => {
                &&& ledger_data.len() <= caps.max_bootstrap_final_state_parts_size
                &&& async_pool_part.len() <= caps.max_bootstrap_final_state_parts_size
                &&& pos_cycle_part.len() <= caps.max_bootstrap_final_state_parts_size
                &&& pos_credits_part.len() <= caps.max_bootstrap_final_state_parts_size
                &&& slot.thread < caps.thread_count
                &&& final_state_changes.len() <= caps.max_changes_slot_count
                &&& entries_within(final_state_changes, caps)
            },
            ServerMessageView::BootstrapPeers { peers } => peers.len()
                <= caps.max_bootstrap_peers_size,
            ServerMessageView::ConsensusState { graph } => graph.len()
                <= caps.max_bootstrap_graph_size,
            ServerMessageView::BootstrapError { error } => encode_utf8(error).len()
                <= caps.max_bootstrap_error_length,
            _ => true,
        }
    }
}

/// The fields of a server message, behind the tag.
pub open spec fn server_fields(m: ServerMessageView) -> Seq<u8> {
    match m {
        ServerMessageView::BootstrapTime { server_time, version } => enc_u64(server_time)
            + enc_version(version),
        ServerMessageView::BootstrapPeers { peers } => enc_blob(peers),
        ServerMessageView::ConsensusState { graph } => enc_blob(graph),
        ServerMessageView::FinalStatePart {
            ledger_data,
            async_pool_part,
            pos_cycle_part,
            pos_credits_part,
            slot,
            final_state_changes,
        } => enc_parts((ledger_data, async_pool_part, pos_cycle_part, pos_credits_part))
            + enc_slot(slot) + enc_changes(final_state_changes),
        ServerMessageView::FinalStateFinished => Seq::empty(),
        ServerMessageView::SlotTooOld => Seq::empty(),
        ServerMessageView::BootstrapError { error } => enc_text(error),
    }
}

/// The tag of a server message.
pub open spec fn server_tag(m: ServerMessageView) -> u8 {
    match m {
        ServerMessageView::BootstrapTime { .. } => TAG_BOOTSTRAP_TIME,
        ServerMessageView::BootstrapPeers { .. } => TAG_BOOTSTRAP_PEERS,
        ServerMessageView::ConsensusState { .. } => TAG_CONSENSUS_STATE,
        ServerMessageView::FinalStatePart { .. } => TAG_FINAL_STATE_PART,
        ServerMessageView::FinalStateFinished => TAG_FINAL_STATE_FINISHED,
        ServerMessageView::SlotTooOld => TAG_SLOT_TOO_OLD,
        ServerMessageView::BootstrapError { .. } => TAG_SERVER_ERROR,
    }
}

/// The body that carries a server message.
pub open spec fn spec_encode_server(m: ServerMessageView) -> Seq<u8> {
    enc_u8(server_tag(m)) + server_fields(m)
}

/// What the fields behind `tag` carry under `caps`.
pub open spec fn spec_decode_server_fields(tag: u8, rest: Seq<u8>, caps: MessageCaps) -> Option<
    ServerMessageView,
> {
    if tag == TAG_BOOTSTRAP_TIME {
        match dec_u64(rest) {
            Some((server_time, rest)) => match dec_version(rest) {
                Some((version, rest)) => if rest.len() == 0 {
                    Some(ServerMessageView::BootstrapTime { server_time, version })
                } else {
                    None
                },
                None => None,
            },
            None => None,
        }
    } else if tag == TAG_BOOTSTRAP_PEERS {
        match dec_blob(rest, caps.max_bootstrap_peers_size) {
            Some((peers, rest)) => if rest.len() == 0 {
                Some(ServerMessageView::BootstrapPeers { peers })
            } else {
                None
            },
            None => None,
        }
    } else if tag == TAG_CONSENSUS_STATE {
        match dec_blob(rest, caps.max_bootstrap_graph_size) {
            Some((graph, rest)) => if rest.len() == 0 {
                Some(ServerMessageView::ConsensusState { graph })
            } else {
                None
            },
            None => None,
        }
    } else if tag == TAG_FINAL_STATE_PART {
        spec_decode_part(rest, caps)
    } else if tag == TAG_SERVER_ERROR {
        match dec_text(rest, caps.max_bootstrap_error_length) {
            Some((error, rest)) => if rest.len() == 0 {
                Some(ServerMessageView::BootstrapError { error })
            } else {
                None
            },
            None => None,
        }
    } else if rest.len() != 0 {
        None
    } else if tag == TAG_FINAL_STATE_FINISHED {
        Some(ServerMessageView::FinalStateFinished)
    } else if tag == TAG_SLOT_TOO_OLD {
        Some(ServerMessageView::SlotTooOld)
    } else {
        None
    }
}

/// Reads the fields of a chunk of final state and requires the end of the body.
pub open spec fn spec_decode_part(s: Seq<u8>, caps: MessageCaps) -> Option<ServerMessageView> {
    match dec_parts(s, caps.max_bootstrap_final_state_parts_size) {
        Some((parts, s)) => match dec_slot(s, caps.thread_count) {
            Some((slot, s)) => match dec_changes(s, caps) {
                Some((final_state_changes, s)) => if s.len() == 0 {
                    Some(
                        ServerMessageView::FinalStatePart {
                            ledger_data: parts.0,
                            async_pool_part: parts.1,
                            pos_cycle_part: parts.2,
                            pos_credits_part: parts.3,
                            slot,
                            final_state_changes,
                        },
                    )
                } else {
                    None
                },
                None => None,
            },
            None => None,
        },
        None => None,
    }
}

/// The server message that a body carries under `caps`, if it carries one.
pub open spec fn spec_decode_server(s: Seq<u8>, caps: MessageCaps) -> Option<ServerMessageView> {
    match dec_u8(s) {
        Some((tag, rest)) => spec_decode_server_fields(tag, rest, caps),
        None => None,
    }
}

/// Reading the changes of one slot off its encoding gives it back and leaves what follows.
pub proof fn lemma_dec_enc_entry(entry: (Slot, StateChangesView), caps: MessageCaps, rest: Seq<u8>)
    requires
        entry_within(entry, caps),
    ensures
        dec_entry(enc_entry(entry) + rest, caps) == Some((entry, rest)),
{
    reveal(enc_entry);
    reveal(dec_entry);
    let cap = caps.max_state_changes_size;
    let e3 = enc_blob(entry.1.roll_state_changes) + rest;
    let e2 = enc_blob(entry.1.async_pool_changes) + e3;
    let e1 = enc_blob(entry.1.ledger_changes) + e2;
    assert(enc_entry(entry) + rest =~= enc_slot(entry.0) + e1);
    lemma_dec_enc_slot(entry.0, caps.thread_count, e1);
    lemma_dec_enc_blob(entry.1.ledger_changes, cap, e2);
    lemma_dec_enc_blob(entry.1.async_pool_changes, cap, e3);
    lemma_dec_enc_blob(entry.1.roll_state_changes, cap, rest);
}

/// Reading a list of changes by slot off its encoding gives it back and leaves what follows.
pub proof fn lemma_dec_enc_entries(
    list: Seq<(Slot, StateChangesView)>,
    caps: MessageCaps,
    rest: Seq<u8>,
)
    requires
        entries_within(list, caps),
    ensures
        dec_entries(enc_entries(list) + rest, list.len(), caps) == Some((list, rest)),
    decreases list.len(),
{
    if list.len() == 0 {
        assert(enc_entries(list) + rest =~= rest);
        assert(list =~= Seq::empty());
    } else {
        let head = list[0];
        let tail = list.skip(1);
        lemma_dec_enc_entries(tail, caps, rest);
        lemma_dec_entries_step(head, tail, caps, rest);
        assert(enc_entries(list) + rest =~= enc_entry(head) + (enc_entries(tail) + rest));
        assert(seq![head] + tail =~= list);
    }
}

/// Reading one more entry than a list holds, off the bytes of an entry
/// followed by the bytes of the list.
proof fn lemma_dec_entries_step(
    head: (Slot, StateChangesView),
    tail: Seq<(Slot, StateChangesView)>,
    caps: MessageCaps,
    rest: Seq<u8>,
)
    requires
        entry_within(head, caps),
        dec_entries(enc_entries(tail) + rest, tail.len(), caps) == Some((tail, rest)),
    ensures
        dec_entries(enc_entry(head) + (enc_entries(tail) + rest), tail.len() + 1, caps) == Some(
            (seq![head] + tail, rest),
        ),
{
    lemma_dec_enc_entry(head, caps, enc_entries(tail) + rest);
}

/// Appending an entry to a list appends its bytes to the list's bytes.
pub proof fn lemma_enc_entries_push(
    list: Seq<(Slot, StateChangesView)>,
    entry: (Slot, StateChangesView),
)
    ensures
        enc_entries(list.push(entry)) == enc_entries(list) + enc_entry(entry),
    decreases list.len(),
{
    let longer = list.push(entry);
    assert(enc_entries(longer) == enc_entry(longer[0]) + enc_entries(longer.skip(1)));
    if list.len() == 0 {
        assert(longer.skip(1) =~= Seq::empty());
        assert(enc_entries(longer.skip(1)) =~= Seq::empty());
        assert(enc_entries(list) =~= Seq::empty());
        assert(enc_entries(longer) =~= enc_entries(list) + enc_entry(entry));
    } else {
        assert(longer[0] == list[0]);
        assert(longer.skip(1) =~= list.skip(1).push(entry));
        lemma_enc_entries_push(list.skip(1), entry);
        assert(enc_entries(list) == enc_entry(list[0]) + enc_entries(list.skip(1)));
        assert(enc_entries(longer) =~= enc_entries(list) + enc_entry(entry));
    }
}

/// Reading the four parts of a chunk off its encoding gives it back and leaves what follows.
pub proof fn lemma_dec_enc_parts(
    parts: (Seq<u8>, Seq<u8>, Seq<u8>, Seq<u8>),
    cap: u32,
    rest: Seq<u8>,
)
    requires
        parts.0.len() <= cap,
        parts.1.len() <= cap,
        parts.2.len() <= cap,
        parts.3.len() <= cap,
    ensures
        dec_parts(enc_parts(parts) + rest, cap) == Some((parts, rest)),
{
    reveal(enc_parts);
    reveal(dec_parts);
    let e3 = enc_blob(parts.3) + rest;
    let e2 = enc_blob(parts.2) + e3;
    let e1 = enc_blob(parts.1) + e2;
    assert(enc_parts(parts) + rest =~= enc_blob(parts.0) + e1);
    lemma_dec_enc_blob(parts.0, cap, e1);
    lemma_dec_enc_blob(parts.1, cap, e2);
    lemma_dec_enc_blob(parts.2, cap, e3);
    lemma_dec_enc_blob(parts.3, cap, rest);
}

/// Reading a counted list of changes by slot off its encoding gives it back and leaves what follows.
pub proof fn lemma_dec_enc_changes(
    list: Seq<(Slot, StateChangesView)>,
    caps: MessageCaps,
    rest: Seq<u8>,
)
    requires
        list.len() <= caps.max_changes_slot_count,
        entries_within(list, caps),
    ensures
        dec_changes(enc_changes(list) + rest, caps) == Some((list, rest)),
{
    reveal(enc_changes);
    reveal(dec_changes);
    let count = list.len() as u32;
    lemma_concat_assoc(enc_u32(count), enc_entries(list), rest);
    lemma_dec_enc_u32(count, enc_entries(list) + rest);
    lemma_dec_enc_entries(list, caps, rest);
}

proof fn lemma_part_round_trip(m: ServerMessageView, caps: MessageCaps)
    requires
        m is FinalStatePart,
        m.within(caps),
    ensures
        spec_decode_part(server_fields(m), caps) == Some(m),
{
    let empty = Seq::<u8>::empty();
    let parts = (m->ledger_data, m->async_pool_part, m->pos_cycle_part, m->pos_credits_part);
    let list = m->final_state_changes;
    let e2 = enc_changes(list) + empty;
    let e1 = enc_slot(m->slot) + e2;
    assert(enc_changes(list) + empty =~= enc_changes(list));
    lemma_concat_assoc(enc_parts(parts), enc_slot(m->slot), enc_changes(list));
    assert(server_fields(m) == enc_parts(parts) + e1);
    lemma_dec_enc_parts(parts, caps.max_bootstrap_final_state_parts_size, e1);
    lemma_dec_enc_slot(m->slot, caps.thread_count, e2);
    lemma_dec_enc_changes(list, caps, empty);
}

proof fn lemma_server_fields_round_trip(m: ServerMessageView, caps: MessageCaps)
    requires
        m.within(caps),
    ensures
        spec_decode_server_fields(server_tag(m), server_fields(m), caps) == Some(m),
{
    let empty = Seq::<u8>::empty();
    match m {
        ServerMessageView::BootstrapTime { server_time, version } => {
            let e2 = enc_version(version) + empty;
            assert(server_fields(m) =~= enc_u64(server_time) + e2);
            lemma_dec_enc_u64(server_time, e2);
            lemma_dec_enc_version(version, empty);
        },
        ServerMessageView::BootstrapPeers { peers } => {
            assert(server_fields(m) =~= enc_blob(peers) + empty);
            lemma_dec_enc_blob(peers, caps.max_bootstrap_peers_size, empty);
        },
        ServerMessageView::ConsensusState { graph } => {
            assert(server_fields(m) =~= enc_blob(graph) + empty);
            lemma_dec_enc_blob(graph, caps.max_bootstrap_graph_size, empty);
        },
        ServerMessageView::FinalStatePart { .. } => {
            lemma_part_round_trip(m, caps);
        },
        ServerMessageView::FinalStateFinished => {},
        ServerMessageView::SlotTooOld => {},
        ServerMessageView::BootstrapError { error } => {
            assert(server_fields(m) =~= enc_text(error) + empty);
            lemma_dec_enc_text(error, caps.max_bootstrap_error_length, empty);
        },
    }
}

/// Encoding a server message that respects the caps and decoding the body
/// under those caps gives the message back.
pub proof fn lemma_server_message_round_trip(m: ServerMessageView, caps: MessageCaps)
    requires
        m.within(caps),
    ensures
        spec_decode_server(spec_encode_server(m), caps) == Some(m),
{
    lemma_dec_enc_u8(server_tag(m), server_fields(m));
    lemma_server_fields_round_trip(m, caps);
}

/// Bytes from which the changes of one slot is read start with its encoding, and what is left follows.
pub proof fn lemma_enc_dec_entry(s: Seq<u8>, caps: MessageCaps)
    requires
        dec_entry(s, caps) is Some,
    ensures
        s == enc_entry(dec_entry(s, caps).unwrap().0) + dec_entry(s, caps).unwrap().1,
        entry_within(dec_entry(s, caps).unwrap().0, caps),
{
    reveal(enc_entry);
    reveal(dec_entry);
    let cap = caps.max_state_changes_size;
    lemma_enc_dec_slot(s, caps.thread_count);
    let (slot, s1) = dec_slot(s, caps.thread_count).unwrap();
    lemma_enc_dec_blob(s1, cap);
    let (ledger_changes, s2) = dec_blob(s1, cap).unwrap();
    lemma_enc_dec_blob(s2, cap);
    let (async_pool_changes, s3) = dec_blob(s2, cap).unwrap();
    lemma_enc_dec_blob(s3, cap);
    let (roll_state_changes, s4) = dec_blob(s3, cap).unwrap();
    let a1 = enc_slot(slot) + enc_blob(ledger_changes);
    let a2 = a1 + enc_blob(async_pool_changes);
    lemma_concat_assoc(enc_slot(slot), enc_blob(ledger_changes), s2);
    lemma_concat_assoc(a1, enc_blob(async_pool_changes), s3);
    lemma_concat_assoc(a2, enc_blob(roll_state_changes), s4);
}

/// Bytes from which a list of changes by slot is read start with its encoding, and what is left follows.
pub proof fn lemma_enc_dec_entries(s: Seq<u8>, count: nat, caps: MessageCaps)
    requires
        dec_entries(s, count, caps) is Some,
    ensures
        s == enc_entries(dec_entries(s, count, caps).unwrap().0) + dec_entries(
            s,
            count,
            caps,
        ).unwrap().1,
        dec_entries(s, count, caps).unwrap().0.len() == count,
        entries_within(dec_entries(s, count, caps).unwrap().0, caps),
    decreases count,
{
    let list = dec_entries(s, count, caps).unwrap().0;
    if count == 0 {
        assert(enc_entries(list) + s =~= s);
    } else {
        lemma_enc_dec_entry(s, caps);
        let (head, s1) = dec_entry(s, caps).unwrap();
        lemma_enc_dec_entries(s1, (count - 1) as nat, caps);
        let (tail, s2) = dec_entries(s1, (count - 1) as nat, caps).unwrap();
        assert(list == seq![head] + tail);
        assert(list[0] == head);
        assert(list.skip(1) =~= tail);
        assert(enc_entries(list) == enc_entry(head) + enc_entries(tail));
        lemma_concat_assoc(enc_entry(head), enc_entries(tail), s2);
    }
}

/// Bytes from which the four parts of a chunk is read start with its encoding, and what is left follows.
pub proof fn lemma_enc_dec_parts(s: Seq<u8>, cap: u32)
    requires
        dec_parts(s, cap) is Some,
    ensures
        s == enc_parts(dec_parts(s, cap).unwrap().0) + dec_parts(s, cap).unwrap().1,
        dec_parts(s, cap).unwrap().0.0.len() <= cap,
        dec_parts(s, cap).unwrap().0.1.len() <= cap,
        dec_parts(s, cap).unwrap().0.2.len() <= cap,
        dec_parts(s, cap).unwrap().0.3.len() <= cap,
{
    reveal(enc_parts);
    reveal(dec_parts);
    lemma_enc_dec_blob(s, cap);
    let (a, s1) = dec_blob(s, cap).unwrap();
    lemma_enc_dec_blob(s1, cap);
    let (b, s2) = dec_blob(s1, cap).unwrap();
    lemma_enc_dec_blob(s2, cap);
    let (c, s3) = dec_blob(s2, cap).unwrap();
    lemma_enc_dec_blob(s3, cap);
    let (d, s4) = dec_blob(s3, cap).unwrap();
    let a1 = enc_blob(a) + enc_blob(b);
    let a2 = a1 + enc_blob(c);
    lemma_concat_assoc(enc_blob(a), enc_blob(b), s2);
    lemma_concat_assoc(a1, enc_blob(c), s3);
    lemma_concat_assoc(a2, enc_blob(d), s4);
}

/// Bytes from which a counted list of changes by slot is read start with its encoding, and what is left follows.
pub proof fn lemma_enc_dec_changes(s: Seq<u8>, caps: MessageCaps)
    requires
        dec_changes(s, caps) is Some,
    ensures
        s == enc_changes(dec_changes(s, caps).unwrap().0) + dec_changes(s, caps).unwrap().1,
        dec_changes(s, caps).unwrap().0.len() <= caps.max_changes_slot_count,
        entries_within(dec_changes(s, caps).unwrap().0, caps),
{
    reveal(enc_changes);
    reveal(dec_changes);
    lemma_enc_dec_u32(s);
    let (count, s1) = dec_u32(s).unwrap();
    lemma_enc_dec_entries(s1, count as nat, caps);
    let (list, s2) = dec_entries(s1, count as nat, caps).unwrap();
    lemma_concat_assoc(enc_u32(count), enc_entries(list), s2);
}

proof fn lemma_part_decode_is_canonical(s: Seq<u8>, caps: MessageCaps)
    requires
        spec_decode_part(s, caps) is Some,
    ensures
        spec_decode_part(s, caps).unwrap() is FinalStatePart,
        server_fields(spec_decode_part(s, caps).unwrap()) == s,
        spec_decode_part(s, caps).unwrap().within(caps),
{
    let cap = caps.max_bootstrap_final_state_parts_size;
    lemma_enc_dec_parts(s, cap);
    let (parts, s1) = dec_parts(s, cap).unwrap();
    lemma_enc_dec_slot(s1, caps.thread_count);
    let (slot, s2) = dec_slot(s1, caps.thread_count).unwrap();
    lemma_enc_dec_changes(s2, caps);
    let (list, s3) = dec_changes(s2, caps).unwrap();
    let a1 = enc_parts(parts) + enc_slot(slot);
    let a2 = a1 + enc_changes(list);
    lemma_concat_assoc(enc_parts(parts), enc_slot(slot), s2);
    lemma_concat_assoc(a1, enc_changes(list), s3);
    assert(a2 + s3 =~= a2);
    assert(s == a2);
}

/// A body that decodes to a server message is the encoding of that message,
/// and the message respects the caps: no two bodies carry the same message.
pub proof fn lemma_server_decode_is_canonical(s: Seq<u8>, caps: MessageCaps)
    requires
        spec_decode_server(s, caps) is Some,
    ensures
        spec_encode_server(spec_decode_server(s, caps).unwrap()) == s,
        spec_decode_server(s, caps).unwrap().within(caps),
{
    lemma_enc_dec_u8(s);
    let (tag, rest) = dec_u8(s).unwrap();
    if tag == TAG_BOOTSTRAP_TIME {
        lemma_enc_dec_u64(rest);
        let (server_time, r1) = dec_u64(rest).unwrap();
        lemma_enc_dec_version(r1);
        let (version, r2) = dec_version(r1).unwrap();
        lemma_concat_assoc(enc_u64(server_time), enc_version(version), r2);
        assert(enc_u64(server_time) + enc_version(version) + r2 =~= enc_u64(server_time)
            + enc_version(version));
    } else if tag == TAG_BOOTSTRAP_PEERS {
        lemma_enc_dec_blob(rest, caps.max_bootstrap_peers_size);
        let (peers, r1) = dec_blob(rest, caps.max_bootstrap_peers_size).unwrap();
        assert(enc_blob(peers) + r1 =~= enc_blob(peers));
    } else if tag == TAG_CONSENSUS_STATE {
        lemma_enc_dec_blob(rest, caps.max_bootstrap_graph_size);
        let (graph, r1) = dec_blob(rest, caps.max_bootstrap_graph_size).unwrap();
        assert(enc_blob(graph) + r1 =~= enc_blob(graph));
    } else if tag == TAG_FINAL_STATE_PART {
        lemma_part_decode_is_canonical(rest, caps);
    } else if tag == TAG_SERVER_ERROR {
        lemma_enc_dec_text(rest, caps.max_bootstrap_error_length);
        let (error, r1) = dec_text(rest, caps.max_bootstrap_error_length).unwrap();
        assert(enc_text(error) + r1 =~= enc_text(error));
    } else {
        assert(rest =~= Seq::empty());
    }
}

/// Appends the encoding of the changes of one slot to `out`.
pub fn put_entry(out: &mut Vec<u8>, entry: &(Slot, StateChanges))
    ensures
        final(out)@ == old(out)@ + enc_entry((entry.0, entry.1@)),
{
    proof {
        reveal(enc_entry);
    }
    put_slot(out, &entry.0);
    put_blob(out, entry.1.ledger_changes.as_slice());
    put_blob(out, entry.1.async_pool_changes.as_slice());
    put_blob(out, entry.1.roll_state_changes.as_slice());
    assert(final(out)@ =~= old(out)@ + enc_entry((entry.0, entry.1@)));
}

/// Appends the encoding of a list of changes by slot to `out`.
pub fn put_entries(out: &mut Vec<u8>, list: &Vec<(Slot, StateChanges)>)
    ensures
        final(out)@ == old(out)@ + enc_entries(changes_view(list@)),
{
    let ghost all = changes_view(list@);
    let mut i: usize = 0;
    assert(all.take(0) =~= Seq::empty());
    assert(out@ =~= old(out)@ + enc_entries(all.take(0)));
    while i < list.len()
        invariant
            i <= list@.len(),
            all == changes_view(list@),
            out@ == old(out)@ + enc_entries(all.take(i as int)),
        decreases list@.len() - i,
    {
        put_entry(out, &list[i]);
        proof {
            assert(all.take(i + 1) =~= all.take(i as int).push(all[i as int]));
            lemma_enc_entries_push(all.take(i as int), all[i as int]);
            assert(out@ =~= old(out)@ + enc_entries(all.take(i + 1)));
        }
        i = i + 1;
    }
    assert(all.take(i as int) =~= all);
}

/// Reads the changes of one slot and moves past it.
pub fn take_entry(r: &mut Reader<'_>, caps: &MessageCaps) -> (res: Option<(Slot, StateChanges)>)
    requires
        old(r).wf(),
    ensures
        final(r).wf(),
        final(r).data == old(r).data,
        match res {
            Some(v) => dec_entry(old(r).rest(), *caps) == Some(((v.0, v.1@), final(r).rest())),
            None => dec_entry(old(r).rest(), *caps) is None,
        },
{
    proof {
        reveal(dec_entry);
    }
    let slot = match take_slot(r, caps.thread_count) {
        Some(v) => v,
        None => { return None; },
    };
    let ledger_changes = match r.take_blob(caps.max_state_changes_size) {
        Some(v) => v,
        None => { return None; },
    };
    let async_pool_changes = match r.take_blob(caps.max_state_changes_size) {
        Some(v) => v,
        None => { return None; },
    };
    let roll_state_changes = match r.take_blob(caps.max_state_changes_size) {
        Some(v) => v,
        None => { return None; },
    };
    Some((slot, StateChanges { ledger_changes, async_pool_changes, roll_state_changes }))
}

/// Reads a list of changes by slot and moves past it.
pub fn take_entries(r: &mut Reader<'_>, count: u32, caps: &MessageCaps) -> (res: Option<
    Vec<(Slot, StateChanges)>,
>)
    requires
        old(r).wf(),
    ensures
        final(r).wf(),
        final(r).data == old(r).data,
        match res {
            Some(v) => dec_entries(old(r).rest(), count as nat, *caps) == Some(
                (changes_view(v@), final(r).rest()),
            ),
            None => dec_entries(old(r).rest(), count as nat, *caps) is None,
        },
{
    let ghost start = r.rest();
    let ghost data = r.data;
    let mut out: Vec<(Slot, StateChanges)> = Vec::new();
    let mut i: u32 = 0;
    assert(changes_view(out@) =~= Seq::empty());
    assert(forall|tail: Seq<(Slot, StateChangesView)>| changes_view(out@) + tail =~= tail);
    while i < count
        invariant
            r.wf(),
            r.data == data,
            data == old(r).data,
            start == old(r).rest(),
            i <= count,
            out@.len() == i,
            dec_entries(start, count as nat, *caps) == match dec_entries(
                r.rest(),
                (count - i) as nat,
                *caps,
            ) {
                Some((tail, rest)) => Some((changes_view(out@) + tail, rest)),
                None => None,
            },
        decreases count - i,
    {
        let ghost before = changes_view(out@);
        let entry = match take_entry(r, caps) {
            Some(v) => v,
            None => { return None; },
        };
        let ghost e = (entry.0, entry.1@);
        out.push(entry);
        i = i + 1;
        proof {
            assert(changes_view(out@) =~= before.push(e));
            assert forall|tail: Seq<(Slot, StateChangesView)>|
                before + (seq![e] + tail) == #[trigger] (changes_view(out@) + tail) by {
                assert(before + (seq![e] + tail) =~= changes_view(out@) + tail);
            }
        }
    }
    assert(forall|tail: Seq<(Slot, StateChangesView)>|
        tail.len() == 0 ==> changes_view(out@) + tail =~= changes_view(out@));
    Some(out)
}

impl BootstrapServerMessage {
    /// Encodes the message as a body.
    pub fn to_bytes(&self) -> (body: Vec<u8>)
        ensures
            body@ == spec_encode_server(self@),
    {
        let mut out: Vec<u8> = Vec::new();
        match self {
            BootstrapServerMessage::BootstrapTime { server_time, version } => {
                put_u8(&mut out, TAG_BOOTSTRAP_TIME);
                put_u64(&mut out, *server_time);
                put_version(&mut out, version);
            },
            BootstrapServerMessage::BootstrapPeers { peers } => {
                put_u8(&mut out, TAG_BOOTSTRAP_PEERS);
                put_blob(&mut out, peers.as_slice());
            },
            BootstrapServerMessage::ConsensusState { graph } => {
                put_u8(&mut out, TAG_CONSENSUS_STATE);
                put_blob(&mut out, graph.as_slice());
            },
            BootstrapServerMessage::FinalStatePart {
                ledger_data,
                async_pool_part,
                pos_cycle_part,
                pos_credits_part,
                slot,
                final_state_changes,
            } => {
                put_u8(&mut out, TAG_FINAL_STATE_PART);
                put_blob(&mut out, ledger_data.as_slice());
                put_blob(&mut out, async_pool_part.as_slice());
                put_blob(&mut out, pos_cycle_part.as_slice());
                put_blob(&mut out, pos_credits_part.as_slice());
                let ghost parts = enc_parts(
                    (ledger_data@, async_pool_part@, pos_cycle_part@, pos_credits_part@),
                );
                proof {
                    reveal(enc_parts);
                    assert(out@ =~= enc_u8(TAG_FINAL_STATE_PART) + parts);
                }
                put_slot(&mut out, slot);
                let ghost before = out@;
                put_u32(&mut out, final_state_changes.len() as u32);
                put_entries(&mut out, final_state_changes);
                proof {
                    reveal(enc_changes);
                    assert(out@ =~= before + enc_changes(changes_view(final_state_changes@)));
                }
            },
            BootstrapServerMessage::FinalStateFinished => {
                put_u8(&mut out, TAG_FINAL_STATE_FINISHED);
            },
            BootstrapServerMessage::SlotTooOld => {
                put_u8(&mut out, TAG_SLOT_TOO_OLD);
            },
            BootstrapServerMessage::BootstrapError { error } => {
                put_u8(&mut out, TAG_SERVER_ERROR);
                put_text(&mut out, error);
            },
        }
        assert(out@ =~= spec_encode_server(self@));
        out
    }

    /// Decodes a body under `caps`.
    ///
    /// Fails with `BadFrame` exactly when the body carries no server message
    /// under these caps.
    pub fn from_bytes(body: &[u8], caps: &MessageCaps) -> (res: Result<
        BootstrapServerMessage,
        BootstrapError,
    >)
        ensures
            match res {
                Ok(m) => spec_decode_server(body@, *caps) == Some(m@),
                Err(e) => e == BootstrapError::BadFrame && spec_decode_server(body@, *caps)
                    is None,
            },
    {
        let mut r = Reader::new(body);
        let tag: u8 = match r.take_u8() {
            Some(v) => v,
            None => { return Err(BootstrapError::BadFrame); },
        };
        if tag == TAG_BOOTSTRAP_TIME {
            let server_time: u64 = match r.take_u64() {
                Some(v) => v,
                None => { return Err(BootstrapError::BadFrame); },
            };
            let version = match take_version(&mut r) {
                Some(v) => v,
                None => { return Err(BootstrapError::BadFrame); },
            };
            if !r.at_end() {
                return Err(BootstrapError::BadFrame);
            }
            Ok(BootstrapServerMessage::BootstrapTime { server_time, version })
        } else if tag == TAG_BOOTSTRAP_PEERS {
            let peers = match r.take_blob(caps.max_bootstrap_peers_size) {
                Some(v) => v,
                None => { return Err(BootstrapError::BadFrame); },
            };
            if !r.at_end() {
                return Err(BootstrapError::BadFrame);
            }
            Ok(BootstrapServerMessage::BootstrapPeers { peers })
        } else if tag == TAG_CONSENSUS_STATE {
            let graph = match r.take_blob(caps.max_bootstrap_graph_size) {
                Some(v) => v,
                None => { return Err(BootstrapError::BadFrame); },
            };
            if !r.at_end() {
                return Err(BootstrapError::BadFrame);
            }
            Ok(BootstrapServerMessage::ConsensusState { graph })
        } else if tag == TAG_FINAL_STATE_PART {
            Self::part_from_reader(&mut r, caps)
        } else if tag == TAG_SERVER_ERROR {
            let error = match take_text(&mut r, caps.max_bootstrap_error_length) {
                Some(v) => v,
                None => { return Err(BootstrapError::BadFrame); },
            };
            if !r.at_end() {
                return Err(BootstrapError::BadFrame);
            }
            Ok(BootstrapServerMessage::BootstrapError { error })
        } else if !r.at_end() {
            Err(BootstrapError::BadFrame)
        } else if tag == TAG_FINAL_STATE_FINISHED {
            Ok(BootstrapServerMessage::FinalStateFinished)
        } else if tag == TAG_SLOT_TOO_OLD {
            Ok(BootstrapServerMessage::SlotTooOld)
        } else {
            Err(BootstrapError::BadFrame)
        }
    }

    /// Reads the fields of a chunk of final state up to the end of the body.
    fn part_from_reader(r: &mut Reader<'_>, caps: &MessageCaps) -> (res: Result<
        BootstrapServerMessage,
        BootstrapError,
    >)
        requires
            old(r).wf(),
        ensures
            match res {
                Ok(m) => spec_decode_part(old(r).rest(), *caps) == Some(m@),
                Err(e) => e == BootstrapError::BadFrame && spec_decode_part(old(r).rest(), *caps)
                    is None,
            },
    {
        proof {
            reveal(dec_parts);
            reveal(dec_changes);
        }
        let cap: u32 = caps.max_bootstrap_final_state_parts_size;
        let ledger_data = match r.take_blob(cap) {
            Some(v) => v,
            None => { return Err(BootstrapError::BadFrame); },
        };
        let async_pool_part = match r.take_blob(cap) {
            Some(v) => v,
            None => { return Err(BootstrapError::BadFrame); },
        };
        let pos_cycle_part = match r.take_blob(cap) {
            Some(v) => v,
            None => { return Err(BootstrapError::BadFrame); },
        };
        let pos_credits_part = match r.take_blob(cap) {
            Some(v) => v,
            None => { return Err(BootstrapError::BadFrame); },
        };
        let slot = match take_slot(r, caps.thread_count) {
            Some(v) => v,
            None => { return Err(BootstrapError::BadFrame); },
        };
        let count: u32 = match r.take_u32() {
            Some(v) => v,
            None => { return Err(BootstrapError::BadFrame); },
        };
        if count > caps.max_changes_slot_count {
            return Err(BootstrapError::BadFrame);
        }
        let final_state_changes = match take_entries(r, count, caps) {
            Some(v) => v,
            None => { return Err(BootstrapError::BadFrame); },
        };
        if !r.at_end() {
            return Err(BootstrapError::BadFrame);
        }
        Ok(
            BootstrapServerMessage::FinalStatePart {
                ledger_data,
                async_pool_part,
                pos_cycle_part,
                pos_credits_part,
                slot,
                final_state_changes,
            },
        )
    }
}

} // verus!
