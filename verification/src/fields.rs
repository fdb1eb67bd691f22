//! The fields that message bodies and blocks are made of: slots, versions,
//! identifiers, texts and optional values.
//!
//! Integers are big-endian in fixed width, an absent value is the byte 0, a
//! present one the byte 1 before its value, and a text is the bytes of its
//! UTF-8 form behind their count.

use crate::codec::{
    dec_blob, dec_u32, dec_u64, dec_u8, enc_blob, enc_u32, enc_u64, enc_u8, lemma_dec_enc_blob,
    lemma_dec_enc_u32, lemma_dec_enc_u64, lemma_dec_enc_u8, lemma_enc_dec_blob,
    lemma_enc_dec_u32, lemma_enc_dec_u64, lemma_enc_dec_u8, put_blob, put_u32, put_u64, put_u8,
    Reader,
};
use crate::messages::{opt_bytes_view, AsyncMessageId, Slot, Version, VERSION_SIZE_BYTES};
use vstd::prelude::*;
use vstd::utf8::{decode_utf8, encode_utf8, valid_utf8};

verus! {


/// The encoding of a slot.
pub open spec fn enc_slot(slot: Slot) -> Seq<u8> {
    enc_u64(slot.period) + enc_u8(slot.thread)
}

/// Reads a slot whose thread is below `thread_count`.
pub open spec fn dec_slot(s: Seq<u8>, thread_count: u8) -> Option<(Slot, Seq<u8>)> {
    match dec_u64(s) {
        Some((period, rest)) => match dec_u8(rest) {
            Some((thread, rest)) => if thread < thread_count {
                Some((Slot { period, thread }, rest))
            } else {
                None
            },
            None => None,
        },
        None => None,
    }
}

/// The encoding of the identifier of a deferred message.
pub open spec fn enc_id(id: AsyncMessageId) -> Seq<u8> {
    enc_u64(id.fee) + enc_slot(id.slot) + enc_u64(id.index)
}

/// Reads the identifier of a deferred message off the front of `s`.
pub open spec fn dec_id(s: Seq<u8>, thread_count: u8) -> Option<(AsyncMessageId, Seq<u8>)> {
    match dec_u64(s) {
        Some((fee, rest)) => match dec_slot(rest, thread_count) {
            Some((slot, rest)) => match dec_u64(rest) {
                Some((index, rest)) => Some((AsyncMessageId { fee, slot, index }, rest)),
                None => None,
            },
            None => None,
        },
        None => None,
    }
}

/// The encoding of a version.
pub open spec fn enc_version(version: Version) -> Seq<u8> {
    version.instance@ + enc_u32(version.major) + enc_u32(version.minor)
}

/// Reads a version off the front of `s`.
pub open spec fn dec_version(s: Seq<u8>) -> Option<(Version, Seq<u8>)> {
    if s.len() < 4 {
        None
    } else {
        match dec_u32(s.skip(4)) {
            Some((major, rest)) => match dec_u32(rest) {
                Some((minor, rest)) => Some(
                    (Version { instance: [s[0], s[1], s[2], s[3]], major, minor }, rest),
                ),
                None => None,
            },
            None => None,
        }
    }
}

/// A text as the bytes of its UTF-8 form behind their count.
pub open spec fn enc_text(text: Seq<char>) -> Seq<u8> {
    enc_blob(encode_utf8(text))
}

/// Reads a text of at most `cap` bytes of well-formed UTF-8.
pub open spec fn dec_text(s: Seq<u8>, cap: u32) -> Option<(Seq<char>, Seq<u8>)> {
    match dec_blob(s, cap) {
        Some((bytes, rest)) => if valid_utf8(bytes) {
            Some((decode_utf8(bytes), rest))
        } else {
            None
        },
        None => None,
    }
}

/// The encoding of an optional byte string.
pub open spec fn enc_opt_blob(o: Option<Seq<u8>>) -> Seq<u8> {
    match o {
        None => enc_u8(0),
        Some(b) => enc_u8(1) + enc_blob(b),
    }
}

/// Reads an optional byte string off the front of `s`.
pub open spec fn dec_opt_blob(s: Seq<u8>, cap: u32) -> Option<(Option<Seq<u8>>, Seq<u8>)> {
    match dec_u8(s) {
        Some((flag, rest)) => if flag == 0 {
            Some((None, rest))
        } else if flag == 1 {
            match dec_blob(rest, cap) {
                Some((b, rest)) => Some((Some(b), rest)),
                None => None,
            }
        } else {
            None
        },
        None => None,
    }
}

/// The encoding of an optional slot.
pub open spec fn enc_opt_slot(o: Option<Slot>) -> Seq<u8> {
    match o {
        None => enc_u8(0),
        Some(slot) => enc_u8(1) + enc_slot(slot),
    }
}

/// Reads an optional slot off the front of `s`.
pub open spec fn dec_opt_slot(s: Seq<u8>, thread_count: u8) -> Option<(Option<Slot>, Seq<u8>)> {
    match dec_u8(s) {
        Some((flag, rest)) => if flag == 0 {
            Some((None, rest))
        } else if flag == 1 {
            match dec_slot(rest, thread_count) {
                Some((slot, rest)) => Some((Some(slot), rest)),
                None => None,
            }
        } else {
            None
        },
        None => None,
    }
}

/// The encoding of an optional identifier of a deferred message.
pub open spec fn enc_opt_id(o: Option<AsyncMessageId>) -> Seq<u8> {
    match o {
        None => enc_u8(0),
        Some(id) => enc_u8(1) + enc_id(id),
    }
}

/// Reads an optional identifier of a deferred message off the front of `s`.
pub open spec fn dec_opt_id(s: Seq<u8>, thread_count: u8) -> Option<
    (Option<AsyncMessageId>, Seq<u8>),
> {
    match dec_u8(s) {
        Some((flag, rest)) => if flag == 0 {
            Some((None, rest))
        } else if flag == 1 {
            match dec_id(rest, thread_count) {
                Some((id, rest)) => Some((Some(id), rest)),
                None => None,
            }
        } else {
            None
        },
        None => None,
    }
}

/// The encoding of an optional 64-bit number.
pub open spec fn enc_opt_u64(o: Option<u64>) -> Seq<u8> {
    match o {
        None => enc_u8(0),
        Some(v) => enc_u8(1) + enc_u64(v),
    }
}

/// Reads an optional 64-bit number off the front of `s`.
pub open spec fn dec_opt_u64(s: Seq<u8>) -> Option<(Option<u64>, Seq<u8>)> {
    match dec_u8(s) {
        Some((flag, rest)) => if flag == 0 {
            Some((None, rest))
        } else if flag == 1 {
            match dec_u64(rest) {
                Some((v, rest)) => Some((Some(v), rest)),
                None => None,
            }
        } else {
            None
        },
        None => None,
    }
}

/// An encoded version has `VERSION_SIZE_BYTES` bytes.
pub proof fn lemma_enc_version_len(version: Version)
    ensures
        enc_version(version).len() == VERSION_SIZE_BYTES,
{
    crate::min_be_int::lemma_be_bytes_len(version.major as nat, 4);
    crate::min_be_int::lemma_be_bytes_len(version.minor as nat, 4);
}

/// Reading a slot off its encoding gives it back and leaves what follows.
pub proof fn lemma_dec_enc_slot(slot: Slot, thread_count: u8, rest: Seq<u8>)
    requires
        slot.thread < thread_count,
    ensures
        dec_slot(enc_slot(slot) + rest, thread_count) == Some((slot, rest)),
{
    assert(enc_slot(slot) + rest =~= enc_u64(slot.period) + (enc_u8(slot.thread) + rest));
    lemma_dec_enc_u64(slot.period, enc_u8(slot.thread) + rest);
    lemma_dec_enc_u8(slot.thread, rest);
}

/// Reading the identifier of a deferred message off its encoding gives it back and leaves what follows.
pub proof fn lemma_dec_enc_id(id: AsyncMessageId, thread_count: u8, rest: Seq<u8>)
    requires
        id.slot.thread < thread_count,
    ensures
        dec_id(enc_id(id) + rest, thread_count) == Some((id, rest)),
{
    let tail = enc_slot(id.slot) + (enc_u64(id.index) + rest);
    assert(enc_id(id) + rest =~= enc_u64(id.fee) + tail);
    lemma_dec_enc_u64(id.fee, tail);
    lemma_dec_enc_slot(id.slot, thread_count, enc_u64(id.index) + rest);
    lemma_dec_enc_u64(id.index, rest);
}

/// Reading a version off its encoding gives it back and leaves what follows.
pub proof fn lemma_dec_enc_version(version: Version, rest: Seq<u8>)
    ensures
        dec_version(enc_version(version) + rest) == Some((version, rest)),
{
    let s = enc_version(version) + rest;
    let tail = enc_u32(version.major) + (enc_u32(version.minor) + rest);
    assert(s.skip(4) =~= tail);
    lemma_dec_enc_u32(version.major, enc_u32(version.minor) + rest);
    lemma_dec_enc_u32(version.minor, rest);
    let read: [u8; 4] = [s[0], s[1], s[2], s[3]];
    assert(read =~= version.instance);
}

/// Reading a text off its encoding gives it back and leaves what follows.
pub proof fn lemma_dec_enc_text(text: Seq<char>, cap: u32, rest: Seq<u8>)
    requires
        encode_utf8(text).len() <= cap,
    ensures
        dec_text(enc_text(text) + rest, cap) == Some((text, rest)),
{
    lemma_dec_enc_blob(encode_utf8(text), cap, rest);
    vstd::utf8::encode_utf8_valid_utf8(text);
    vstd::utf8::encode_utf8_decode_utf8(text);
}

/// Reading an optional byte string off its encoding gives it back and leaves what follows.
pub proof fn lemma_dec_enc_opt_blob(o: Option<Seq<u8>>, cap: u32, rest: Seq<u8>)
    requires
        o matches Some(b) ==> b.len() <= cap,
    ensures
        dec_opt_blob(enc_opt_blob(o) + rest, cap) == Some((o, rest)),
{
    match o {
        None => {
            lemma_dec_enc_u8(0, rest);
        },
        Some(b) => {
            assert(enc_opt_blob(o) + rest =~= enc_u8(1) + (enc_blob(b) + rest));
            lemma_dec_enc_u8(1, enc_blob(b) + rest);
            lemma_dec_enc_blob(b, cap, rest);
        },
    }
}

/// Reading an optional slot off its encoding gives it back and leaves what follows.
pub proof fn lemma_dec_enc_opt_slot(o: Option<Slot>, thread_count: u8, rest: Seq<u8>)
    requires
        o matches Some(slot) ==> slot.thread < thread_count,
    ensures
        dec_opt_slot(enc_opt_slot(o) + rest, thread_count) == Some((o, rest)),
{
    match o {
        None => {
            lemma_dec_enc_u8(0, rest);
        },
        Some(slot) => {
            assert(enc_opt_slot(o) + rest =~= enc_u8(1) + (enc_slot(slot) + rest));
            lemma_dec_enc_u8(1, enc_slot(slot) + rest);
            lemma_dec_enc_slot(slot, thread_count, rest);
        },
    }
}

/// Reading an optional identifier of a deferred message off its encoding gives it back and leaves what follows.
pub proof fn lemma_dec_enc_opt_id(o: Option<AsyncMessageId>, thread_count: u8, rest: Seq<u8>)
    requires
        o matches Some(id) ==> id.slot.thread < thread_count,
    ensures
        dec_opt_id(enc_opt_id(o) + rest, thread_count) == Some((o, rest)),
{
    match o {
        None => {
            lemma_dec_enc_u8(0, rest);
        },
        Some(id) => {
            assert(enc_opt_id(o) + rest =~= enc_u8(1) + (enc_id(id) + rest));
            lemma_dec_enc_u8(1, enc_id(id) + rest);
            lemma_dec_enc_id(id, thread_count, rest);
        },
    }
}

/// Reading an optional 64-bit number off its encoding gives it back and leaves what follows.
pub proof fn lemma_dec_enc_opt_u64(o: Option<u64>, rest: Seq<u8>)
    ensures
        dec_opt_u64(enc_opt_u64(o) + rest) == Some((o, rest)),
{
    match o {
        None => {
            lemma_dec_enc_u8(0, rest);
        },
        Some(v) => {
            assert(enc_opt_u64(o) + rest =~= enc_u8(1) + (enc_u64(v) + rest));
            lemma_dec_enc_u8(1, enc_u64(v) + rest);
            lemma_dec_enc_u64(v, rest);
        },
    }
}

/// Bytes from which a slot is read start with its encoding, and what is left follows.
pub proof fn lemma_enc_dec_slot(s: Seq<u8>, thread_count: u8)
    requires
        dec_slot(s, thread_count) is Some,
    ensures
        s == enc_slot(dec_slot(s, thread_count).unwrap().0) + dec_slot(s, thread_count).unwrap().1,
        dec_slot(s, thread_count).unwrap().0.thread < thread_count,
{
    lemma_enc_dec_u64(s);
    let (period, rest) = dec_u64(s).unwrap();
    lemma_enc_dec_u8(rest);
    let (thread, rest2) = dec_u8(rest).unwrap();
    assert(s =~= enc_u64(period) + enc_u8(thread) + rest2);
}

/// Bytes from which the identifier of a deferred message is read start with its encoding, and what is left follows.
pub proof fn lemma_enc_dec_id(s: Seq<u8>, thread_count: u8)
    requires
        dec_id(s, thread_count) is Some,
    ensures
        s == enc_id(dec_id(s, thread_count).unwrap().0) + dec_id(s, thread_count).unwrap().1,
        dec_id(s, thread_count).unwrap().0.slot.thread < thread_count,
{
    lemma_enc_dec_u64(s);
    let (fee, r1) = dec_u64(s).unwrap();
    lemma_enc_dec_slot(r1, thread_count);
    let (slot, r2) = dec_slot(r1, thread_count).unwrap();
    lemma_enc_dec_u64(r2);
    let (index, r3) = dec_u64(r2).unwrap();
    assert(s =~= enc_u64(fee) + enc_slot(slot) + enc_u64(index) + r3);
}

/// Bytes from which a version is read start with its encoding, and what is left follows.
pub proof fn lemma_enc_dec_version(s: Seq<u8>)
    requires
        dec_version(s) is Some,
    ensures
        s == enc_version(dec_version(s).unwrap().0) + dec_version(s).unwrap().1,
{
    let r0 = s.skip(4);
    lemma_enc_dec_u32(r0);
    let (major, r1) = dec_u32(r0).unwrap();
    lemma_enc_dec_u32(r1);
    let (minor, r2) = dec_u32(r1).unwrap();
    let version = dec_version(s).unwrap().0;
    assert(version.instance@ =~= s.take(4));
    assert(s =~= s.take(4) + r0);
    assert(s =~= version.instance@ + enc_u32(major) + enc_u32(minor) + r2);
}

/// Bytes from which a text is read start with its encoding, and what is left follows.
pub proof fn lemma_enc_dec_text(s: Seq<u8>, cap: u32)
    requires
        dec_text(s, cap) is Some,
    ensures
        s == enc_text(dec_text(s, cap).unwrap().0) + dec_text(s, cap).unwrap().1,
        encode_utf8(dec_text(s, cap).unwrap().0).len() <= cap,
{
    lemma_enc_dec_blob(s, cap);
    vstd::utf8::decode_utf8_encode_utf8(dec_blob(s, cap).unwrap().0);
}

/// Bytes from which an optional byte string is read start with its encoding, and what is left follows.
pub proof fn lemma_enc_dec_opt_blob(s: Seq<u8>, cap: u32)
    requires
        dec_opt_blob(s, cap) is Some,
    ensures
        s == enc_opt_blob(dec_opt_blob(s, cap).unwrap().0) + dec_opt_blob(s, cap).unwrap().1,
        dec_opt_blob(s, cap).unwrap().0 matches Some(b) ==> b.len() <= cap,
{
    lemma_enc_dec_u8(s);
    let (flag, rest) = dec_u8(s).unwrap();
    if flag == 1 {
        lemma_enc_dec_blob(rest, cap);
        let (b, rest2) = dec_blob(rest, cap).unwrap();
        assert(s =~= enc_u8(1) + enc_blob(b) + rest2);
    }
}

/// Bytes from which an optional slot is read start with its encoding, and what is left follows.
pub proof fn lemma_enc_dec_opt_slot(s: Seq<u8>, thread_count: u8)
    requires
        dec_opt_slot(s, thread_count) is Some,
    ensures
        s == enc_opt_slot(dec_opt_slot(s, thread_count).unwrap().0) + dec_opt_slot(
            s,
            thread_count,
        ).unwrap().1,
        dec_opt_slot(s, thread_count).unwrap().0 matches Some(slot) ==> slot.thread < thread_count,
{
    lemma_enc_dec_u8(s);
    let (flag, rest) = dec_u8(s).unwrap();
    if flag == 1 {
        lemma_enc_dec_slot(rest, thread_count);
        let (slot, rest2) = dec_slot(rest, thread_count).unwrap();
        assert(s =~= enc_u8(1) + enc_slot(slot) + rest2);
    }
}

/// Bytes from which an optional identifier of a deferred message is read start with its encoding, and what is left follows.
pub proof fn lemma_enc_dec_opt_id(s: Seq<u8>, thread_count: u8)
    requires
        dec_opt_id(s, thread_count) is Some,
    ensures
        s == enc_opt_id(dec_opt_id(s, thread_count).unwrap().0) + dec_opt_id(
            s,
            thread_count,
        ).unwrap().1,
        dec_opt_id(s, thread_count).unwrap().0 matches Some(id) ==> id.slot.thread < thread_count,
{
    lemma_enc_dec_u8(s);
    let (flag, rest) = dec_u8(s).unwrap();
    if flag == 1 {
        lemma_enc_dec_id(rest, thread_count);
        let (id, rest2) = dec_id(rest, thread_count).unwrap();
        assert(s =~= enc_u8(1) + enc_id(id) + rest2);
    }
}

/// Bytes from which an optional 64-bit number is read start with its encoding, and what is left follows.
pub proof fn lemma_enc_dec_opt_u64(s: Seq<u8>)
    requires
        dec_opt_u64(s) is Some,
    ensures
        s == enc_opt_u64(dec_opt_u64(s).unwrap().0) + dec_opt_u64(s).unwrap().1,
{
    lemma_enc_dec_u8(s);
    let (flag, rest) = dec_u8(s).unwrap();
    if flag == 1 {
        lemma_enc_dec_u64(rest);
        let (v, rest2) = dec_u64(rest).unwrap();
        assert(s =~= enc_u8(1) + enc_u64(v) + rest2);
    }
}


/// Calls `String::from_utf8`.
///
/// Trusted: a text comes back exactly when the bytes are well-formed UTF-8,
/// and its UTF-8 form is those bytes.
#[verifier::external_body]
fn string_from_utf8(bytes: Vec<u8>) -> (text: Option<String>)
    ensures
        text is Some <==> valid_utf8(bytes@),
        text matches Some(t) ==> encode_utf8(t@) == bytes@,
{
    match String::from_utf8(bytes) {
        Ok(text) => Some(text),
        Err(_) => None,
    }
}

/// Appends the encoding of a slot to `out`.
pub fn put_slot(out: &mut Vec<u8>, slot: &Slot)
    ensures
        final(out)@ == old(out)@ + enc_slot(*slot),
{
    put_u64(out, slot.period);
    put_u8(out, slot.thread);
    assert(final(out)@ =~= old(out)@ + enc_slot(*slot));
}

/// Appends the encoding of the identifier of a deferred message to `out`.
pub fn put_id(out: &mut Vec<u8>, id: &AsyncMessageId)
    ensures
        final(out)@ == old(out)@ + enc_id(*id),
{
    put_u64(out, id.fee);
    put_slot(out, &id.slot);
    put_u64(out, id.index);
    assert(final(out)@ =~= old(out)@ + enc_id(*id));
}

/// Appends the encoding of a version to `out`.
pub fn put_version(out: &mut Vec<u8>, version: &Version)
    ensures
        final(out)@ == old(out)@ + enc_version(*version),
{
    out.push(version.instance[0]);
    out.push(version.instance[1]);
    out.push(version.instance[2]);
    out.push(version.instance[3]);
    assert(out@ =~= old(out)@ + version.instance@);
    put_u32(out, version.major);
    put_u32(out, version.minor);
    assert(final(out)@ =~= old(out)@ + enc_version(*version));
}

/// Appends the encoding of a text to `out`.
pub fn put_text(out: &mut Vec<u8>, text: &String)
    ensures
        final(out)@ == old(out)@ + enc_text(text@),
{
    put_blob(out, text.as_str().as_bytes());
}

/// Appends the encoding of an optional byte string to `out`.
pub fn put_opt_blob(out: &mut Vec<u8>, o: &Option<Vec<u8>>)
    ensures
        final(out)@ == old(out)@ + enc_opt_blob(opt_bytes_view(*o)),
{
    match o {
        None => {
            put_u8(out, 0);
        },
        Some(b) => {
            put_u8(out, 1);
            put_blob(out, b.as_slice());
            assert(final(out)@ =~= old(out)@ + enc_opt_blob(opt_bytes_view(*o)));
        },
    }
}

/// Appends the encoding of an optional slot to `out`.
pub fn put_opt_slot(out: &mut Vec<u8>, o: &Option<Slot>)
    ensures
        final(out)@ == old(out)@ + enc_opt_slot(*o),
{
    match o {
        None => {
            put_u8(out, 0);
        },
        Some(slot) => {
            put_u8(out, 1);
            put_slot(out, slot);
            assert(final(out)@ =~= old(out)@ + enc_opt_slot(*o));
        },
    }
}

/// Appends the encoding of an optional identifier of a deferred message to `out`.
pub fn put_opt_id(out: &mut Vec<u8>, o: &Option<AsyncMessageId>)
    ensures
        final(out)@ == old(out)@ + enc_opt_id(*o),
{
    match o {
        None => {
            put_u8(out, 0);
        },
        Some(id) => {
            put_u8(out, 1);
            put_id(out, id);
            assert(final(out)@ =~= old(out)@ + enc_opt_id(*o));
        },
    }
}

/// Appends the encoding of an optional 64-bit number to `out`.
pub fn put_opt_u64(out: &mut Vec<u8>, o: &Option<u64>)
    ensures
        final(out)@ == old(out)@ + enc_opt_u64(*o),
{
    match o {
        None => {
            put_u8(out, 0);
        },
        Some(v) => {
            put_u8(out, 1);
            put_u64(out, *v);
            assert(final(out)@ =~= old(out)@ + enc_opt_u64(*o));
        },
    }
}

/// Reads a slot and moves past it.
pub fn take_slot(r: &mut Reader<'_>, thread_count: u8) -> (res: Option<Slot>)
    requires
        old(r).wf(),
    ensures
        final(r).wf(),
        final(r).data == old(r).data,
        match res {
            Some(v) => dec_slot(old(r).rest(), thread_count) == Some((v, final(r).rest())),
            None => dec_slot(old(r).rest(), thread_count) is None,
        },
{
    let period: u64 = match r.take_u64() {
        Some(v) => v,
        None => { return None; },
    };
    let thread: u8 = match r.take_u8() {
        Some(v) => v,
        None => { return None; },
    };
    if thread < thread_count {
        Some(Slot { period, thread })
    } else {
        None
    }
}

/// Reads the identifier of a deferred message and moves past it.
pub fn take_id(r: &mut Reader<'_>, thread_count: u8) -> (res: Option<AsyncMessageId>)
    requires
        old(r).wf(),
    ensures
        final(r).wf(),
        final(r).data == old(r).data,
        match res {
            Some(v) => dec_id(old(r).rest(), thread_count) == Some((v, final(r).rest())),
            None => dec_id(old(r).rest(), thread_count) is None,
        },
{
    let fee: u64 = match r.take_u64() {
        Some(v) => v,
        None => { return None; },
    };
    let slot = match take_slot(r, thread_count) {
        Some(v) => v,
        None => { return None; },
    };
    let index: u64 = match r.take_u64() {
        Some(v) => v,
        None => { return None; },
    };
    Some(AsyncMessageId { fee, slot, index })
}

/// Reads a version and moves past it.
pub fn take_version(r: &mut Reader<'_>) -> (res: Option<Version>)
    requires
        old(r).wf(),
    ensures
        final(r).wf(),
        final(r).data == old(r).data,
        match res {
            Some(v) => dec_version(old(r).rest()) == Some((v, final(r).rest())),
            None => dec_version(old(r).rest()) is None,
        },
{
    let ghost s = r.rest();
    let a: u8 = match r.take_u8() {
        Some(v) => v,
        None => { return None; },
    };
    let b: u8 = match r.take_u8() {
        Some(v) => v,
        None => { return None; },
    };
    let c: u8 = match r.take_u8() {
        Some(v) => v,
        None => { return None; },
    };
    let d: u8 = match r.take_u8() {
        Some(v) => v,
        None => { return None; },
    };
    assert(r.rest() =~= s.skip(4));
    assert(s.skip(1)[0] == s[1] && s.skip(1).skip(1)[0] == s[2] && s.skip(1).skip(1).skip(1)[0]
        == s[3]);
    let major: u32 = match r.take_u32() {
        Some(v) => v,
        None => { return None; },
    };
    let minor: u32 = match r.take_u32() {
        Some(v) => v,
        None => { return None; },
    };
    Some(Version { instance: [a, b, c, d], major, minor })
}

/// Reads a text and moves past it.
pub fn take_text(r: &mut Reader<'_>, cap: u32) -> (res: Option<String>)
    requires
        old(r).wf(),
    ensures
        final(r).wf(),
        final(r).data == old(r).data,
        match res {
            Some(v) => dec_text(old(r).rest(), cap) == Some((v@, final(r).rest())),
            None => dec_text(old(r).rest(), cap) is None,
        },
{
    let bytes = match r.take_blob(cap) {
        Some(v) => v,
        None => { return None; },
    };
    let text = string_from_utf8(bytes);
    proof {
        if text is Some {
            vstd::utf8::encode_utf8_decode_utf8(text->0@);
        }
    }
    text
}

/// Reads an optional byte string and moves past it.
pub fn take_opt_blob(r: &mut Reader<'_>, cap: u32) -> (res: Option<Option<Vec<u8>>>)
    requires
        old(r).wf(),
    ensures
        final(r).wf(),
        final(r).data == old(r).data,
        match res {
            Some(v) => dec_opt_blob(old(r).rest(), cap) == Some(
                (opt_bytes_view(v), final(r).rest()),
            ),
            None => dec_opt_blob(old(r).rest(), cap) is None,
        },
{
    let flag: u8 = match r.take_u8() {
        Some(v) => v,
        None => { return None; },
    };
    if flag == 0 {
        Some(None)
    } else if flag == 1 {
        match r.take_blob(cap) {
            Some(b) => Some(Some(b)),
            None => None,
        }
    } else {
        None
    }
}

/// Reads an optional slot and moves past it.
pub fn take_opt_slot(r: &mut Reader<'_>, thread_count: u8) -> (res: Option<Option<Slot>>)
    requires
        old(r).wf(),
    ensures
        final(r).wf(),
        final(r).data == old(r).data,
        match res {
            Some(v) => dec_opt_slot(old(r).rest(), thread_count) == Some((v, final(r).rest())),
            None => dec_opt_slot(old(r).rest(), thread_count) is None,
        },
{
    let flag: u8 = match r.take_u8() {
        Some(v) => v,
        None => { return None; },
    };
    if flag == 0 {
        Some(None)
    } else if flag == 1 {
        match take_slot(r, thread_count) {
            Some(slot) => Some(Some(slot)),
            None => None,
        }
    } else {
        None
    }
}

/// Reads an optional identifier of a deferred message and moves past it.
pub fn take_opt_id(r: &mut Reader<'_>, thread_count: u8) -> (res: Option<Option<AsyncMessageId>>)
    requires
        old(r).wf(),
    ensures
        final(r).wf(),
        final(r).data == old(r).data,
        match res {
            Some(v) => dec_opt_id(old(r).rest(), thread_count) == Some((v, final(r).rest())),
            None => dec_opt_id(old(r).rest(), thread_count) is None,
        },
{
    let flag: u8 = match r.take_u8() {
        Some(v) => v,
        None => { return None; },
    };
    if flag == 0 {
        Some(None)
    } else if flag == 1 {
        match take_id(r, thread_count) {
            Some(id) => Some(Some(id)),
            None => None,
        }
    } else {
        None
    }
}

/// Reads an optional 64-bit number and moves past it.
pub fn take_opt_u64(r: &mut Reader<'_>) -> (res: Option<Option<u64>>)
    requires
        old(r).wf(),
    ensures
        final(r).wf(),
        final(r).data == old(r).data,
        match res {
            Some(v) => dec_opt_u64(old(r).rest()) == Some((v, final(r).rest())),
            None => dec_opt_u64(old(r).rest()) is None,
        },
{
    let flag: u8 = match r.take_u8() {
        Some(v) => v,
        None => { return None; },
    };
    if flag == 0 {
        Some(None)
    } else if flag == 1 {
        match r.take_u64() {
            Some(v) => Some(Some(v)),
            None => None,
        }
    } else {
        None
    }
}

} // verus!
