//! Fixed-width fields and length-prefixed byte strings of the message bodies.
//!
//! Every field is written by a function of the value alone and read back off
//! the front of a byte string, leaving the rest.

use crate::min_be_int::{
    be_bytes, be_value, lemma_be_bytes_len, lemma_be_bytes_of_value, lemma_be_value_bound,
    lemma_be_value_of_bytes, lemma_pow256_values, put_be, read_be,
};
use vstd::prelude::*;
use vstd::slice::{slice_subrange, slice_to_vec};

verus! {

/// A number in `width` bytes, most significant first.
pub open spec fn enc_be(v: nat, width: nat) -> Seq<u8> {
    be_bytes(v, width)
}

/// Reads `width` bytes as a number off the front of `s`.
pub open spec fn dec_be(s: Seq<u8>, width: nat) -> Option<(nat, Seq<u8>)> {
    if s.len() < width {
        None
    } else {
        Some((be_value(s.take(width as int)), s.skip(width as int)))
    }
}

/// The encoding of a byte.
pub open spec fn enc_u8(v: u8) -> Seq<u8> {
    seq![v]
}

/// Reads a byte off the front of `s`.
pub open spec fn dec_u8(s: Seq<u8>) -> Option<(u8, Seq<u8>)> {
    if s.len() < 1 {
        None
    } else {
        Some((s[0], s.skip(1)))
    }
}

/// The encoding of a 32-bit number.
pub open spec fn enc_u32(v: u32) -> Seq<u8> {
    enc_be(v as nat, 4)
}

/// Reads a 32-bit number off the front of `s`.
pub open spec fn dec_u32(s: Seq<u8>) -> Option<(u32, Seq<u8>)> {
    match dec_be(s, 4) {
        Some((v, rest)) => Some((v as u32, rest)),
        None => None,
    }
}

/// The encoding of a 64-bit number.
pub open spec fn enc_u64(v: u64) -> Seq<u8> {
    enc_be(v as nat, 8)
}

/// Reads a 64-bit number off the front of `s`.
pub open spec fn dec_u64(s: Seq<u8>) -> Option<(u64, Seq<u8>)> {
    match dec_be(s, 8) {
        Some((v, rest)) => Some((v as u64, rest)),
        None => None,
    }
}

/// A byte string behind its length in four bytes.
pub open spec fn enc_blob(b: Seq<u8>) -> Seq<u8> {
    enc_be(b.len(), 4) + b
}

/// Reads a byte string of at most `cap` bytes off the front of `s`.
pub open spec fn dec_blob(s: Seq<u8>, cap: u32) -> Option<(Seq<u8>, Seq<u8>)> {
    match dec_u32(s) {
        Some((n, rest)) => if n > cap || rest.len() < n {
            None
        } else {
            Some((rest.take(n as int), rest.skip(n as int)))
        },
        None => None,
    }
}

/// Concatenation does not depend on the grouping.
pub proof fn lemma_concat_assoc(a: Seq<u8>, b: Seq<u8>, c: Seq<u8>)
    ensures
        (a + b) + c == a + (b + c),
{
    assert((a + b) + c =~= a + (b + c));
}

/// Reading a number in a given width off its encoding gives it back and leaves what follows.
pub proof fn lemma_dec_enc_be(v: nat, width: nat, rest: Seq<u8>)
    requires
        v < crate::min_be_int::pow256(width),
    ensures
        dec_be(enc_be(v, width) + rest, width) == Some((v, rest)),
{
    let s = enc_be(v, width) + rest;
    lemma_be_bytes_len(v, width);
    lemma_be_value_of_bytes(v, width);
    assert(s.take(width as int) =~= enc_be(v, width));
    assert(s.skip(width as int) =~= rest);
}

/// Bytes from which a number in a given width is read start with its encoding, and what is left follows.
pub proof fn lemma_enc_dec_be(s: Seq<u8>, width: nat)
    requires
        dec_be(s, width) is Some,
    ensures
        s == enc_be(dec_be(s, width).unwrap().0, width) + dec_be(s, width).unwrap().1,
{
    lemma_be_bytes_of_value(s.take(width as int));
    assert(s =~= s.take(width as int) + s.skip(width as int));
}

/// Reading a byte off its encoding gives it back and leaves what follows.
pub proof fn lemma_dec_enc_u8(v: u8, rest: Seq<u8>)
    ensures
        dec_u8(enc_u8(v) + rest) == Some((v, rest)),
{
    assert((enc_u8(v) + rest).skip(1) =~= rest);
}

/// Bytes from which a byte is read start with its encoding, and what is left follows.
pub proof fn lemma_enc_dec_u8(s: Seq<u8>)
    requires
        dec_u8(s) is Some,
    ensures
        s == enc_u8(dec_u8(s).unwrap().0) + dec_u8(s).unwrap().1,
{
    assert(s =~= seq![s[0]] + s.skip(1));
}

/// Reading a 32-bit number off its encoding gives it back and leaves what follows.
pub proof fn lemma_dec_enc_u32(v: u32, rest: Seq<u8>)
    ensures
        dec_u32(enc_u32(v) + rest) == Some((v, rest)),
{
    lemma_pow256_values();
    lemma_dec_enc_be(v as nat, 4, rest);
}

/// Bytes from which a 32-bit number is read start with its encoding, and what is left follows.
pub proof fn lemma_enc_dec_u32(s: Seq<u8>)
    requires
        dec_u32(s) is Some,
    ensures
        s == enc_u32(dec_u32(s).unwrap().0) + dec_u32(s).unwrap().1,
{
    lemma_pow256_values();
    lemma_be_value_bound(s.take(4));
    lemma_enc_dec_be(s, 4);
}

/// Reading a 64-bit number off its encoding gives it back and leaves what follows.
pub proof fn lemma_dec_enc_u64(v: u64, rest: Seq<u8>)
    ensures
        dec_u64(enc_u64(v) + rest) == Some((v, rest)),
{
    lemma_pow256_values();
    lemma_dec_enc_be(v as nat, 8, rest);
}

/// Bytes from which a 64-bit number is read start with its encoding, and what is left follows.
pub proof fn lemma_enc_dec_u64(s: Seq<u8>)
    requires
        dec_u64(s) is Some,
    ensures
        s == enc_u64(dec_u64(s).unwrap().0) + dec_u64(s).unwrap().1,
{
    lemma_pow256_values();
    lemma_be_value_bound(s.take(8));
    lemma_enc_dec_be(s, 8);
}

/// Reading a byte string with its length off its encoding gives it back and leaves what follows.
pub proof fn lemma_dec_enc_blob(b: Seq<u8>, cap: u32, rest: Seq<u8>)
    requires
        b.len() <= cap,
    ensures
        dec_blob(enc_blob(b) + rest, cap) == Some((b, rest)),
{
    let n = b.len() as u32;
    assert(enc_blob(b) + rest =~= enc_u32(n) + (b + rest));
    lemma_dec_enc_u32(n, b + rest);
    assert((b + rest).take(n as int) =~= b);
    assert((b + rest).skip(n as int) =~= rest);
}

/// Bytes from which a byte string with its length is read start with its encoding, and what is left follows.
pub proof fn lemma_enc_dec_blob(s: Seq<u8>, cap: u32)
    requires
        dec_blob(s, cap) is Some,
    ensures
        s == enc_blob(dec_blob(s, cap).unwrap().0) + dec_blob(s, cap).unwrap().1,
        dec_blob(s, cap).unwrap().0.len() <= cap,
{
    lemma_enc_dec_u32(s);
    let (n, rest) = dec_u32(s).unwrap();
    assert(rest =~= rest.take(n as int) + rest.skip(n as int));
    assert(s =~= enc_u32(n) + rest.take(n as int) + rest.skip(n as int));
}

/// Appends `bytes` to `out`.
pub fn put_bytes(out: &mut Vec<u8>, bytes: &[u8])
    ensures
        final(out)@ == old(out)@ + bytes@,
{
    let mut i: usize = 0;
    while i < bytes.len()
        invariant
            i <= bytes@.len(),
            out@ == old(out)@ + bytes@.take(i as int),
        decreases bytes@.len() - i,
    {
        out.push(bytes[i]);
        i = i + 1;
        assert(out@ =~= old(out)@ + bytes@.take(i as int));
    }
    assert(bytes@.take(i as int) =~= bytes@);
}

/// Appends the encoding of a byte to `out`.
pub fn put_u8(out: &mut Vec<u8>, v: u8)
    ensures
        final(out)@ == old(out)@ + enc_u8(v),
{
    out.push(v);
    assert(final(out)@ =~= old(out)@ + enc_u8(v));
}

/// Appends the encoding of a 32-bit number to `out`.
pub fn put_u32(out: &mut Vec<u8>, v: u32)
    ensures
        final(out)@ == old(out)@ + enc_u32(v),
{
    put_be(out, v as u64, 4);
}

/// Appends the encoding of a 64-bit number to `out`.
pub fn put_u64(out: &mut Vec<u8>, v: u64)
    ensures
        final(out)@ == old(out)@ + enc_u64(v),
{
    put_be(out, v, 8);
}

/// Appends the encoding of a byte string with its length to `out`.
pub fn put_blob(out: &mut Vec<u8>, bytes: &[u8])
    ensures
        final(out)@ == old(out)@ + enc_blob(bytes@),
{
    put_be(out, bytes.len() as u64, 4);
    put_bytes(out, bytes);
    assert(final(out)@ =~= old(out)@ + enc_blob(bytes@));
}

/// A position in a byte string that is read front to back.
pub struct Reader<'a> {
    pub data: &'a [u8],
    pub pos: usize,
}

impl<'a> Reader<'a> {
    /// Whether the position lies within the data.
    pub open spec fn wf(&self) -> bool {
        self.pos <= self.data@.len()
    }

    /// The bytes not read yet.
    pub open spec fn rest(&self) -> Seq<u8> {
        self.data@.skip(self.pos as int)
    }

    /// A reader at the start of `data`.
    pub fn new(data: &'a [u8]) -> (reader: Reader<'a>)
        ensures
            reader.wf(),
            reader.rest() == data@,
            reader.data == data,
    {
        assert(data@.skip(0) =~= data@);
        Reader { data, pos: 0 }
    }

    /// Whether everything has been read.
    pub fn at_end(&self) -> (end: bool)
        requires
            self.wf(),
        ensures
            end == (self.rest().len() == 0),
    {
        self.pos == self.data.len()
    }

    /// Reads a byte and moves past it.
    pub fn take_u8(&mut self) -> (r: Option<u8>)
        requires
            old(self).wf(),
        ensures
            final(self).wf(),
            final(self).data == old(self).data,
            match r {
                Some(v) => dec_u8(old(self).rest()) == Some((v, final(self).rest())),
                None => dec_u8(old(self).rest()) is None,
            },
    {
        if self.pos < self.data.len() {
            let v: u8 = self.data[self.pos];
            self.pos = self.pos + 1;
            assert(old(self).rest().skip(1) =~= self.rest());
            Some(v)
        } else {
            None
        }
    }

    /// Reads `width` bytes as a number.
    pub fn take_be(&mut self, width: usize) -> (r: Option<u64>)
        requires
            old(self).wf(),
            width <= 8,
        ensures
            final(self).wf(),
            final(self).data == old(self).data,
            match r {
                Some(v) => dec_be(old(self).rest(), width as nat) == Some(
                    (v as nat, final(self).rest()),
                ),
                None => dec_be(old(self).rest(), width as nat) is None,
            },
    {
        if self.data.len() - self.pos < width {
            return None;
        }
        let field = slice_subrange(self.data, self.pos, self.pos + width);
        let v: u64 = read_be(field);
        assert(field@ =~= old(self).rest().take(width as int));
        self.pos = self.pos + width;
        assert(old(self).rest().skip(width as int) =~= self.rest());
        Some(v)
    }

    /// Reads a 32-bit number and moves past it.
    pub fn take_u32(&mut self) -> (r: Option<u32>)
        requires
            old(self).wf(),
        ensures
            final(self).wf(),
            final(self).data == old(self).data,
            match r {
                Some(v) => dec_u32(old(self).rest()) == Some((v, final(self).rest())),
                None => dec_u32(old(self).rest()) is None,
            },
    {
        match self.take_be(4) {
            Some(v) => {
                proof {
                    lemma_be_value_bound(old(self).rest().take(4));
                    lemma_pow256_values();
                }
                Some(v as u32)
            },
            None => None,
        }
    }

    /// Reads a 64-bit number and moves past it.
    pub fn take_u64(&mut self) -> (r: Option<u64>)
        requires
            old(self).wf(),
        ensures
            final(self).wf(),
            final(self).data == old(self).data,
            match r {
                Some(v) => dec_u64(old(self).rest()) == Some((v, final(self).rest())),
                None => dec_u64(old(self).rest()) is None,
            },
    {
        self.take_be(8)
    }

    /// Reads a length-prefixed byte string of at most `cap` bytes.
    pub fn take_blob(&mut self, cap: u32) -> (r: Option<Vec<u8>>)
        requires
            old(self).wf(),
        ensures
            final(self).wf(),
            final(self).data == old(self).data,
            match r {
                Some(b) => dec_blob(old(self).rest(), cap) == Some((b@, final(self).rest())),
                None => dec_blob(old(self).rest(), cap) is None,
            },
    {
        let n: u32 = match self.take_u32() {
            Some(n) => n,
            None => { return None; },
        };
        let ghost mid = self.rest();
        if n > cap || self.data.len() - self.pos < n as usize {
            return None;
        }
        let field = slice_subrange(self.data, self.pos, self.pos + n as usize);
        assert(field@ =~= mid.take(n as int));
        self.pos = self.pos + n as usize;
        assert(mid.skip(n as int) =~= self.rest());
        Some(slice_to_vec(field))
    }
}

} // verus!
