//! Randomness from the operating system.

use vstd::prelude::*;

verus! {

/// Fills a fresh buffer of `n` bytes with `rand::RngCore::try_fill_bytes` on
/// `rand::rngs::OsRng`.
///
/// Trusted: a buffer that comes back holds `n` bytes. Nothing is said of
/// their values, nor of when the system has none to give.
#[verifier::external_body]
pub(crate) fn os_random_bytes(n: usize) -> (out: Option<Vec<u8>>)
    ensures
        out matches Some(bytes) ==> bytes@.len() == n,
{
    let mut bytes = vec![0u8; n];
    match rand::RngCore::try_fill_bytes(&mut rand::rngs::OsRng, &mut bytes) {
        Ok(()) => Some(bytes),
        Err(_) => None,
    }
}

/// Seeds a `rand::rngs::StdRng` from `rand::rngs::OsRng` and reorders `order`
/// with `rand::seq::SliceRandom::shuffle`.
///
/// Trusted: the shuffle only swaps elements, so what comes back holds the
/// same items as `order`, as often. Without a seed `order` comes back as it
/// was.
#[verifier::external_body]
pub(crate) fn os_shuffle(order: Vec<usize>) -> (shuffled: Vec<usize>)
    ensures
        shuffled@.to_multiset() == order@.to_multiset(),
{
    let mut shuffled = order;
    match <rand::rngs::StdRng as rand::SeedableRng>::from_rng(rand::rngs::OsRng) {
        Ok(mut rng) => {
            rand::seq::SliceRandom::shuffle(shuffled.as_mut_slice(), &mut rng);
            shuffled
        },
        Err(_) => shuffled,
    }
}

} // verus!
