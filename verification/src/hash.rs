//! Message digests.

use vstd::prelude::*;

verus! {

/// Number of bytes of a digest.
pub const HASH_SIZE_BYTES: usize = 32;

/// The BLAKE3 digest of `data`, as the `blake3` crate computes it.
pub uninterp spec fn blake3_digest(data: Seq<u8>) -> Seq<u8>;

/// Calls `blake3::hash` and copies the digest out.
///
/// Trusted: the result is the 32-byte BLAKE3 digest of `data`, a function of
/// `data` alone.
#[verifier::external_body]
fn digest(data: &[u8]) -> (out: [u8; 32])
    ensures
        out@ == blake3_digest(data@),
{
    *blake3::hash(data).as_bytes()
}

/// A 32-byte digest.
#[derive(Clone, Copy, Debug, PartialEq, Eq, PartialOrd, Ord, Hash)]
pub struct Hash {
    bytes: [u8; 32],
}

impl View for Hash {
    type V = Seq<u8>;

    closed spec fn view(&self) -> Seq<u8> {
        self.bytes@
    }
}

impl Hash {
    /// Hashes `data`.
    pub fn compute_from(data: &[u8]) -> (hash: Hash)
        ensures
            hash@ == blake3_digest(data@),
            hash@.len() == HASH_SIZE_BYTES,
    {
        Hash { bytes: digest(data) }
    }

    /// The digest whose bytes are `bytes`.
    pub fn from_bytes(bytes: &[u8; 32]) -> (hash: Hash)
        ensures
            hash@ == bytes@,
    {
        Hash { bytes: *bytes }
    }

    /// The bytes of the digest.
    pub fn to_bytes(&self) -> (bytes: &[u8; 32])
        ensures
            bytes@ == self@,
    {
        &self.bytes
    }

    /// Whether two digests have the same bytes.
    pub fn equals(&self, other: &Hash) -> (same: bool)
        ensures
            same == (self@ == other@),
    {
        let mut i: usize = 0;
        while i < 32
            invariant
                i <= 32,
                forall|j: int| 0 <= j < i ==> self.bytes@[j] == other.bytes@[j],
            decreases 32 - i,
        {
            if self.bytes[i] != other.bytes[i] {
                return false;
            }
            i = i + 1;
        }
        assert(self.bytes@ =~= other.bytes@);
        true
    }

    /// Every digest has `HASH_SIZE_BYTES` bytes.
    pub proof fn lemma_len(self)
        ensures
            self@.len() == HASH_SIZE_BYTES,
    {
    }
}

} // verus!
