//! Big-endian integers in the least number of bytes that a known maximum needs.
//!
//! A length field on the wire is written in exactly as many bytes as its
//! maximum value takes, most significant byte first.

use crate::error::BootstrapError;
use vstd::prelude::*;

verus! {

/// `256` to the power `n`.
pub open spec fn pow256(n: nat) -> nat
    decreases n,
{
    if n == 0 {
        1
    } else {
        256 * pow256((n - 1) as nat)
    }
}

/// The big-endian digits of `v` in base 256, in exactly `width` bytes.
pub open spec fn be_bytes(v: nat, width: nat) -> Seq<u8>
    decreases width,
{
    if width == 0 {
        Seq::empty()
    } else {
        be_bytes(v / 256, (width - 1) as nat).push((v % 256) as u8)
    }
}

/// The number that the bytes `s` spell, most significant byte first.
pub open spec fn be_value(s: Seq<u8>) -> nat
    decreases s.len(),
{
    if s.len() == 0 {
        0
    } else {
        be_value(s.drop_last()) * 256 + s.last() as nat
    }
}

/// The least number of bytes whose big-endian values reach `max`.
pub open spec fn min_width(max: nat) -> nat
    decreases max,
{
    if max == 0 {
        0
    } else {
        1 + min_width(max / 256)
    }
}

/// The powers of 256 that fit the widths of machine integers.
pub proof fn lemma_pow256_values()
    ensures
        pow256(0) == 1,
        pow256(1) == 0x100,
        pow256(2) == 0x1_0000,
        pow256(3) == 0x100_0000,
        pow256(4) == 0x1_0000_0000,
        pow256(5) == 0x100_0000_0000,
        pow256(6) == 0x1_0000_0000_0000,
        pow256(7) == 0x100_0000_0000_0000,
        pow256(8) == 0x1_0000_0000_0000_0000,
{
    reveal_with_fuel(pow256, 10);
}

/// Powers of 256 are positive and grow with the exponent.
pub proof fn lemma_pow256_monotonic(a: nat, b: nat)
    requires
        a <= b,
    ensures
        0 < pow256(a) <= pow256(b),
    decreases b,
{
    if b > 0 {
        if a < b {
            lemma_pow256_monotonic(a, (b - 1) as nat);
        } else {
            lemma_pow256_monotonic((a - 1) as nat, (b - 1) as nat);
        }
    }
}

/// A number written in `width` bytes takes `width` bytes.
pub proof fn lemma_be_bytes_len(v: nat, width: nat)
    ensures
        be_bytes(v, width).len() == width,
    decreases width,
{
    if width > 0 {
        lemma_be_bytes_len(v / 256, (width - 1) as nat);
    }
}

/// Bytes spell a number below `256` to the power of their count.
pub proof fn lemma_be_value_bound(s: Seq<u8>)
    ensures
        be_value(s) < pow256(s.len()),
    decreases s.len(),
{
    if s.len() > 0 {
        lemma_be_value_bound(s.drop_last());
    }
}

/// Reading back the digits of a number that fits gives the number.
pub proof fn lemma_be_value_of_bytes(v: nat, width: nat)
    requires
        v < pow256(width),
    ensures
        be_value(be_bytes(v, width)) == v,
    decreases width,
{
    if width > 0 {
        let rest = be_bytes(v / 256, (width - 1) as nat);
        lemma_be_value_of_bytes(v / 256, (width - 1) as nat);
        assert(rest.push((v % 256) as u8).drop_last() =~= rest);
    }
}

/// Writing the number that bytes spell, in as many bytes, gives the bytes.
pub proof fn lemma_be_bytes_of_value(s: Seq<u8>)
    ensures
        be_bytes(be_value(s), s.len()) == s,
    decreases s.len(),
{
    if s.len() > 0 {
        lemma_be_bytes_of_value(s.drop_last());
        assert(s.drop_last().push(s.last()) =~= s);
    }
}

/// The width of a maximum is the smallest one whose range exceeds it.
pub proof fn lemma_min_width_is_minimal(max: nat)
    ensures
        max < pow256(min_width(max)),
        forall|w: nat| w < min_width(max) ==> pow256(w) <= max,
    decreases max,
{
    if max > 0 {
        lemma_min_width_is_minimal(max / 256);
        assert forall|w: nat| w < min_width(max) implies pow256(w) <= max by {
            if w > 0 {
                assert(pow256((w - 1) as nat) <= max / 256);
            }
        }
    }
}

/// Any width whose range exceeds `max` is at least the minimal one.
pub proof fn lemma_min_width_unique(max: nat, w: nat)
    requires
        max < pow256(w),
        w > 0 ==> pow256((w - 1) as nat) <= max,
    ensures
        w == min_width(max),
{
    lemma_min_width_is_minimal(max);
    let m = min_width(max);
    if w < m {
        assert(pow256(w) <= max);
    } else if m < w {
        lemma_pow256_monotonic(m, (w - 1) as nat);
    }
}

/// A maximum that fits 32 bits needs at most four bytes.
pub proof fn lemma_min_width_of_u32(max: nat)
    requires
        max <= u32::MAX,
    ensures
        min_width(max) <= 4,
{
    lemma_min_width_is_minimal(max);
    lemma_pow256_values();
    if min_width(max) > 4 {
        assert(pow256(4) <= max);
    }
}

/// Number of bytes of a length field whose maximum is `max_value`.
pub fn be_bytes_min_length(max_value: u32) -> (width: usize)
    ensures
        width == min_width(max_value as nat),
        width <= 4,
        max_value < pow256(width as nat),
        width > 0 ==> pow256((width - 1) as nat) <= max_value,
{
    let mut rest: u32 = max_value;
    let mut width: usize = 0;
    proof {
        lemma_min_width_of_u32(max_value as nat);
    }
    while rest > 0
        invariant
            min_width(max_value as nat) == width + min_width(rest as nat),
            min_width(max_value as nat) <= 4,
        decreases rest,
    {
        rest = rest / 256;
        width = width + 1;
    }
    proof {
        lemma_min_width_is_minimal(max_value as nat);
    }
    width
}

/// Appends the `width` big-endian bytes of `v` to `out`.
pub fn put_be(out: &mut Vec<u8>, v: u64, width: usize)
    ensures
        final(out)@ == old(out)@ + be_bytes(v as nat, width as nat),
    decreases width,
{
    if width > 0 {
        put_be(out, v / 256, width - 1);
        out.push((v % 256) as u8);
        assert(final(out)@ =~= old(out)@ + be_bytes(v as nat, width as nat));
    } else {
        assert(final(out)@ =~= old(out)@ + be_bytes(v as nat, width as nat));
    }
}

/// Reads the number that at most eight bytes spell.
pub fn read_be(bytes: &[u8]) -> (v: u64)
    requires
        bytes@.len() <= 8,
    ensures
        v == be_value(bytes@),
{
    let mut v: u64 = 0;
    let mut i: usize = 0;
    while i < bytes.len()
        invariant
            i <= bytes@.len() <= 8,
            v == be_value(bytes@.take(i as int)),
        decreases bytes@.len() - i,
    {
        proof {
            let next = bytes@.take(i + 1);
            assert(next.drop_last() =~= bytes@.take(i as int));
            lemma_be_value_bound(bytes@.take(i as int));
            lemma_be_value_bound(next);
            lemma_pow256_monotonic(next.len(), 8);
            lemma_pow256_values();
        }
        v = v * 256 + bytes[i] as u64;
        i = i + 1;
    }
    assert(bytes@.take(i as int) =~= bytes@);
    v
}

/// Writes `value` in the width that `max_value` needs.
///
/// Fails with `OversizeFrame` exactly when `value` exceeds `max_value`.
pub fn to_be_bytes_min(value: u32, max_value: u32) -> (res: Result<Vec<u8>, BootstrapError>)
    ensures
        match res {
            Ok(bytes) => value <= max_value && bytes@ == be_bytes(
                value as nat,
                min_width(max_value as nat),
            ),
            Err(e) => value > max_value && e == BootstrapError::OversizeFrame,
        },
{
    if value > max_value {
        return Err(BootstrapError::OversizeFrame);
    }
    let width: usize = be_bytes_min_length(max_value);
    let mut out: Vec<u8> = Vec::new();
    put_be(&mut out, value as u64, width);
    assert(out@ =~= be_bytes(value as nat, width as nat));
    Ok(out)
}

/// What `from_be_bytes_min` reads off the front of `buffer`.
pub open spec fn min_be_prefix(buffer: Seq<u8>, max_value: nat) -> Seq<u8> {
    buffer.take(min_width(max_value) as int)
}

/// Reads a value written in the width that `max_value` needs off the front
/// of `buffer`, and says how many bytes it took.
///
/// Fails with `BadFrame` when the buffer is shorter than that width, and with
/// `OversizeFrame` when the bytes spell more than `max_value`.
pub fn from_be_bytes_min(buffer: &[u8], max_value: u32) -> (res: Result<
    (u32, usize),
    BootstrapError,
>)
    ensures
        match res {
            Ok((value, read)) => {
                &&& read == min_width(max_value as nat)
                &&& read <= buffer@.len()
                &&& value == be_value(min_be_prefix(buffer@, max_value as nat))
                &&& value <= max_value
            },
            Err(e) => if buffer@.len() < min_width(max_value as nat) {
                e == BootstrapError::BadFrame
            } else {
                &&& e == BootstrapError::OversizeFrame
                &&& be_value(min_be_prefix(buffer@, max_value as nat)) > max_value
            },
        },
{
    let width: usize = be_bytes_min_length(max_value);
    if buffer.len() < width {
        return Err(BootstrapError::BadFrame);
    }
    let field = vstd::slice::slice_subrange(buffer, 0, width);
    assert(field@ =~= min_be_prefix(buffer@, max_value as nat));
    let v: u64 = read_be(field);
    if v > max_value as u64 {
        return Err(BootstrapError::OversizeFrame);
    }
    Ok((v as u32, width))
}

/// A value within its maximum survives being written and read back, and the
/// reader takes exactly the bytes that were written, whatever follows them.
pub proof fn lemma_min_be_round_trip(value: nat, max_value: nat, rest: Seq<u8>)
    requires
        value <= max_value,
    ensures
        min_be_prefix(be_bytes(value, min_width(max_value)) + rest, max_value) == be_bytes(
            value,
            min_width(max_value),
        ),
        be_value(be_bytes(value, min_width(max_value))) == value,
{
    let w = min_width(max_value);
    lemma_be_bytes_len(value, w);
    lemma_min_width_is_minimal(max_value);
    lemma_be_value_of_bytes(value, w);
    assert((be_bytes(value, w) + rest).take(w as int) =~= be_bytes(value, w));
}

} // verus!
