//! The encoding of the messages that the client sends.
//!
//! A body is one tag byte and the fields of the message. It is read under
//! size caps and must be used up to its last byte.

use crate::codec::{
    dec_u8, enc_u8, lemma_concat_assoc, lemma_dec_enc_u8, lemma_enc_dec_u8, put_u8, Reader,
};
use crate::error::BootstrapError;
use crate::fields::{
    dec_opt_blob, dec_opt_id, dec_opt_slot, dec_opt_u64, dec_text, enc_opt_blob, enc_opt_id,
    enc_opt_slot, enc_opt_u64, enc_text, lemma_dec_enc_opt_blob, lemma_dec_enc_opt_id,
    lemma_dec_enc_opt_slot, lemma_dec_enc_opt_u64, lemma_dec_enc_text, lemma_enc_dec_opt_blob,
    lemma_enc_dec_opt_id, lemma_enc_dec_opt_slot, lemma_enc_dec_opt_u64, lemma_enc_dec_text,
    put_opt_blob, put_opt_id, put_opt_slot, put_opt_u64, put_text, take_opt_blob, take_opt_id,
    take_opt_slot, take_opt_u64, take_text,
};
use crate::messages::{
    BootstrapClientMessage, ClientMessageView, MessageCaps, TAG_ASK_BOOTSTRAP_PEERS,
    TAG_ASK_CONSENSUS_STATE, TAG_ASK_FINAL_STATE_PART, TAG_BOOTSTRAP_SUCCESS, TAG_CLIENT_ERROR,
};
use vstd::prelude::*;
use vstd::utf8::encode_utf8;

verus! {


impl ClientMessageView {
    /// Whether the message respects the caps under which it will be read.
    pub open spec fn within(self, caps: MessageCaps) -> bool {
        match self {
            ClientMessageView::AskFinalStatePart {
                last_key,
                slot,
                last_async_message_id,
                last_cycle,
                last_credits_slot,
            } => {
                &&& last_key matches Some(key) ==> key.len() <= caps.max_datastore_key_length
                &&& slot matches Some(slot) ==> slot.thread < caps.thread_count
                &&& last_async_message_id matches Some(id) ==> id.slot.thread < caps.thread_count
                &&& last_credits_slot matches Some(slot) ==> slot.thread < caps.thread_count
            },
            ClientMessageView::BootstrapError { error } => encode_utf8(error).len()
                <= caps.max_bootstrap_error_length,
            _ => true,
        }
    }

    /// Whether this is a request for final state with an empty resume cursor.
    pub open spec fn is_fresh_ask(self) -> bool {
        self == ClientMessageView::AskFinalStatePart {
            last_key: None,
            slot: None,
            last_async_message_id: None,
            last_cycle: None,
            last_credits_slot: None,
        }
    }
}

/// The body that carries a client message.
pub open spec fn spec_encode_client(m: ClientMessageView) -> Seq<u8> {
    match m {
        ClientMessageView::AskBootstrapPeers => enc_u8(TAG_ASK_BOOTSTRAP_PEERS),
        ClientMessageView::AskConsensusState => enc_u8(TAG_ASK_CONSENSUS_STATE),
        ClientMessageView::AskFinalStatePart {
            last_key,
            slot,
            last_async_message_id,
            last_cycle,
            last_credits_slot,
        } => enc_u8(TAG_ASK_FINAL_STATE_PART) + enc_opt_blob(last_key) + enc_opt_slot(slot)
            + enc_opt_id(last_async_message_id) + enc_opt_u64(last_cycle) + enc_opt_slot(
            last_credits_slot,
        ),
        ClientMessageView::BootstrapError { error } => enc_u8(TAG_CLIENT_ERROR) + enc_text(error),
        ClientMessageView::BootstrapSuccess => enc_u8(TAG_BOOTSTRAP_SUCCESS),
    }
}

/// Reads the five fields of a resume cursor and requires the end of the body.
pub open spec fn spec_decode_ask(s: Seq<u8>, caps: MessageCaps) -> Option<ClientMessageView> {
    match dec_opt_blob(s, caps.max_datastore_key_length) {
        Some((last_key, s)) => match dec_opt_slot(s, caps.thread_count) {
            Some((slot, s)) => match dec_opt_id(s, caps.thread_count) {
                Some((last_async_message_id, s)) => match dec_opt_u64(s) {
                    Some((last_cycle, s)) => match dec_opt_slot(s, caps.thread_count) {
                        Some((last_credits_slot, s)) => if s.len() == 0 {
                            Some(
                                ClientMessageView::AskFinalStatePart {
                                    last_key,
                                    slot,
                                    last_async_message_id,
                                    last_cycle,
                                    last_credits_slot,
                                },
                            )
                        } else {
                            None
                        },
                        None => None,
                    },
                    None => None,
                },
                None => None,
            },
            None => None,
        },
        None => None,
    }
}

/// The client message that a body carries under `caps`, if it carries one.
pub open spec fn spec_decode_client(s: Seq<u8>, caps: MessageCaps) -> Option<ClientMessageView> {
    match dec_u8(s) {
        Some((tag, rest)) => if tag == TAG_ASK_FINAL_STATE_PART {
            spec_decode_ask(rest, caps)
        } else if tag == TAG_CLIENT_ERROR {
            match dec_text(rest, caps.max_bootstrap_error_length) {
                Some((error, rest)) => if rest.len() == 0 {
                    Some(ClientMessageView::BootstrapError { error })
                } else {
                    None
                },
                None => None,
            }
        } else if rest.len() != 0 {
            None
        } else if tag == TAG_ASK_BOOTSTRAP_PEERS {
            Some(ClientMessageView::AskBootstrapPeers)
        } else if tag == TAG_ASK_CONSENSUS_STATE {
            Some(ClientMessageView::AskConsensusState)
        } else if tag == TAG_BOOTSTRAP_SUCCESS {
            Some(ClientMessageView::BootstrapSuccess)
        } else {
            None
        },
        None => None,
    }
}

/// Encoding a client message that respects the caps and decoding the body
/// under those caps gives the message back.
pub proof fn lemma_client_message_round_trip(m: ClientMessageView, caps: MessageCaps)
    requires
        m.within(caps),
    ensures
        spec_decode_client(spec_encode_client(m), caps) == Some(m),
{
    let empty = Seq::<u8>::empty();
    match m {
        ClientMessageView::AskFinalStatePart {
            last_key,
            slot,
            last_async_message_id,
            last_cycle,
            last_credits_slot,
        } => {
            let e5 = enc_opt_slot(last_credits_slot) + empty;
            let e4 = enc_opt_u64(last_cycle) + e5;
            let e3 = enc_opt_id(last_async_message_id) + e4;
            let e2 = enc_opt_slot(slot) + e3;
            let e1 = enc_opt_blob(last_key) + e2;
            assert(spec_encode_client(m) =~= enc_u8(TAG_ASK_FINAL_STATE_PART) + e1);
            lemma_dec_enc_u8(TAG_ASK_FINAL_STATE_PART, e1);
            lemma_dec_enc_opt_blob(last_key, caps.max_datastore_key_length, e2);
            lemma_dec_enc_opt_slot(slot, caps.thread_count, e3);
            lemma_dec_enc_opt_id(last_async_message_id, caps.thread_count, e4);
            lemma_dec_enc_opt_u64(last_cycle, e5);
            lemma_dec_enc_opt_slot(last_credits_slot, caps.thread_count, empty);
        },
        ClientMessageView::BootstrapError { error } => {
            assert(spec_encode_client(m) =~= enc_u8(TAG_CLIENT_ERROR) + (enc_text(error) + empty));
            lemma_dec_enc_u8(TAG_CLIENT_ERROR, enc_text(error) + empty);
            lemma_dec_enc_text(error, caps.max_bootstrap_error_length, empty);
        },
        ClientMessageView::AskBootstrapPeers => {
            assert(spec_encode_client(m) =~= enc_u8(TAG_ASK_BOOTSTRAP_PEERS) + empty);
            lemma_dec_enc_u8(TAG_ASK_BOOTSTRAP_PEERS, empty);
        },
        ClientMessageView::AskConsensusState => {
            assert(spec_encode_client(m) =~= enc_u8(TAG_ASK_CONSENSUS_STATE) + empty);
            lemma_dec_enc_u8(TAG_ASK_CONSENSUS_STATE, empty);
        },
        ClientMessageView::BootstrapSuccess => {
            assert(spec_encode_client(m) =~= enc_u8(TAG_BOOTSTRAP_SUCCESS) + empty);
            lemma_dec_enc_u8(TAG_BOOTSTRAP_SUCCESS, empty);
        },
    }
}

proof fn lemma_ask_decode_is_canonical(s: Seq<u8>, caps: MessageCaps)
    requires
        spec_decode_ask(s, caps) is Some,
    ensures
        enc_u8(TAG_ASK_FINAL_STATE_PART) + s == spec_encode_client(
            spec_decode_ask(s, caps).unwrap(),
        ),
        spec_decode_ask(s, caps).unwrap().within(caps),
{
    let tag = enc_u8(TAG_ASK_FINAL_STATE_PART);
    lemma_enc_dec_opt_blob(s, caps.max_datastore_key_length);
    let (last_key, s1) = dec_opt_blob(s, caps.max_datastore_key_length).unwrap();
    lemma_enc_dec_opt_slot(s1, caps.thread_count);
    let (slot, s2) = dec_opt_slot(s1, caps.thread_count).unwrap();
    lemma_enc_dec_opt_id(s2, caps.thread_count);
    let (id, s3) = dec_opt_id(s2, caps.thread_count).unwrap();
    lemma_enc_dec_opt_u64(s3);
    let (last_cycle, s4) = dec_opt_u64(s3).unwrap();
    lemma_enc_dec_opt_slot(s4, caps.thread_count);
    let (last_credits_slot, s5) = dec_opt_slot(s4, caps.thread_count).unwrap();
    let a1 = tag + enc_opt_blob(last_key);
    let a2 = a1 + enc_opt_slot(slot);
    let a3 = a2 + enc_opt_id(id);
    let a4 = a3 + enc_opt_u64(last_cycle);
    let a5 = a4 + enc_opt_slot(last_credits_slot);
    lemma_concat_assoc(tag, enc_opt_blob(last_key), s1);
    lemma_concat_assoc(a1, enc_opt_slot(slot), s2);
    lemma_concat_assoc(a2, enc_opt_id(id), s3);
    lemma_concat_assoc(a3, enc_opt_u64(last_cycle), s4);
    lemma_concat_assoc(a4, enc_opt_slot(last_credits_slot), s5);
    assert(a5 + s5 =~= a5);
    assert(tag + s == a5);
}

/// A body that decodes to a client message is the encoding of that message,
/// and the message respects the caps: no two bodies carry the same message.
pub proof fn lemma_client_decode_is_canonical(s: Seq<u8>, caps: MessageCaps)
    requires
        spec_decode_client(s, caps) is Some,
    ensures
        spec_encode_client(spec_decode_client(s, caps).unwrap()) == s,
        spec_decode_client(s, caps).unwrap().within(caps),
{
    lemma_enc_dec_u8(s);
    let (tag, rest) = dec_u8(s).unwrap();
    if tag == TAG_ASK_FINAL_STATE_PART {
        lemma_ask_decode_is_canonical(rest, caps);
    } else if tag == TAG_CLIENT_ERROR {
        lemma_enc_dec_text(rest, caps.max_bootstrap_error_length);
        let (error, rest2) = dec_text(rest, caps.max_bootstrap_error_length).unwrap();
        assert(s =~= enc_u8(tag) + enc_text(error));
    } else {
        assert(s =~= enc_u8(tag));
    }
}

impl BootstrapClientMessage {
    /// The request for final state that starts from nothing.
    pub fn fresh_ask() -> (m: BootstrapClientMessage)
        ensures
            m@.is_fresh_ask(),
            m == (BootstrapClientMessage::AskFinalStatePart {
                last_key: None,
                slot: None,
                last_async_message_id: None,
                last_cycle: None,
                last_credits_slot: None,
            }),
    {
        BootstrapClientMessage::AskFinalStatePart {
            last_key: None,
            slot: None,
            last_async_message_id: None,
            last_cycle: None,
            last_credits_slot: None,
        }
    }

    /// Encodes the message as a body.
    pub fn to_bytes(&self) -> (body: Vec<u8>)
        ensures
            body@ == spec_encode_client(self@),
    {
        let mut out: Vec<u8> = Vec::new();
        match self {
            BootstrapClientMessage::AskFinalStatePart {
                last_key,
                slot,
                last_async_message_id,
                last_cycle,
                last_credits_slot,
            } => {
                put_u8(&mut out, TAG_ASK_FINAL_STATE_PART);
                put_opt_blob(&mut out, last_key);
                put_opt_slot(&mut out, slot);
                put_opt_id(&mut out, last_async_message_id);
                put_opt_u64(&mut out, last_cycle);
                put_opt_slot(&mut out, last_credits_slot);
            },
            BootstrapClientMessage::AskBootstrapPeers => {
                put_u8(&mut out, TAG_ASK_BOOTSTRAP_PEERS);
            },
            BootstrapClientMessage::AskConsensusState => {
                put_u8(&mut out, TAG_ASK_CONSENSUS_STATE);
            },
            BootstrapClientMessage::BootstrapSuccess => {
                put_u8(&mut out, TAG_BOOTSTRAP_SUCCESS);
            },
            BootstrapClientMessage::BootstrapError { error } => {
                put_u8(&mut out, TAG_CLIENT_ERROR);
                put_text(&mut out, error);
            },
        }
        assert(out@ =~= spec_encode_client(self@));
        out
    }

    /// Decodes a body under `caps`.
    ///
    /// Fails with `BadFrame` exactly when the body carries no client message
    /// under these caps.
    pub fn from_bytes(body: &[u8], caps: &MessageCaps) -> (res: Result<
        BootstrapClientMessage,
        BootstrapError,
    >)
        ensures
            match res {
                Ok(m) => spec_decode_client(body@, *caps) == Some(m@),
                Err(e) => e == BootstrapError::BadFrame && spec_decode_client(body@, *caps)
                    is None,
            },
    {
        let mut r = Reader::new(body);
        let tag: u8 = match r.take_u8() {
            Some(v) => v,
            None => { return Err(BootstrapError::BadFrame); },
        };
        if tag == TAG_ASK_FINAL_STATE_PART {
            let last_key = match take_opt_blob(&mut r, caps.max_datastore_key_length) {
                Some(v) => v,
                None => { return Err(BootstrapError::BadFrame); },
            };
            let slot = match take_opt_slot(&mut r, caps.thread_count) {
                Some(v) => v,
                None => { return Err(BootstrapError::BadFrame); },
            };
            let last_async_message_id = match take_opt_id(&mut r, caps.thread_count) {
                Some(v) => v,
                None => { return Err(BootstrapError::BadFrame); },
            };
            let last_cycle = match take_opt_u64(&mut r) {
                Some(v) => v,
                None => { return Err(BootstrapError::BadFrame); },
            };
            let last_credits_slot = match take_opt_slot(&mut r, caps.thread_count) {
                Some(v) => v,
                None => { return Err(BootstrapError::BadFrame); },
            };
            if !r.at_end() {
                return Err(BootstrapError::BadFrame);
            }
            Ok(
                BootstrapClientMessage::AskFinalStatePart {
                    last_key,
                    slot,
                    last_async_message_id,
                    last_cycle,
                    last_credits_slot,
                },
            )
        } else if tag == TAG_CLIENT_ERROR {
            let error = match take_text(&mut r, caps.max_bootstrap_error_length) {
                Some(v) => v,
                None => { return Err(BootstrapError::BadFrame); },
            };
            if !r.at_end() {
                return Err(BootstrapError::BadFrame);
            }
            Ok(BootstrapClientMessage::BootstrapError { error })
        } else if !r.at_end() {
            Err(BootstrapError::BadFrame)
        } else if tag == TAG_ASK_BOOTSTRAP_PEERS {
            Ok(BootstrapClientMessage::AskBootstrapPeers)
        } else if tag == TAG_ASK_CONSENSUS_STATE {
            Ok(BootstrapClientMessage::AskConsensusState)
        } else if tag == TAG_BOOTSTRAP_SUCCESS {
            Ok(BootstrapClientMessage::BootstrapSuccess)
        } else {
            Err(BootstrapError::BadFrame)
        }
    }
}

} // verus!
