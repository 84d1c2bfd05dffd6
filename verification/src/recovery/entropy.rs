//! Fresh randomness, drawn from the thread's generator.

use vstd::prelude::*;

verus! {

/// Draws `count` random bytes.
///
/// Trusted: fills a buffer through `rand::RngCore::fill_bytes` on
/// `rand::thread_rng()`. The contract claims the length alone; nothing is
/// said of what the bytes are.
#[verifier::external_body]
pub(crate) fn random_bytes(count: usize) -> (bytes: Vec<u8>)
    ensures
        bytes@.len() == count,
{
    let mut bytes = vec![0u8; count];
    rand::RngCore::fill_bytes(&mut rand::thread_rng(), &mut bytes);
    bytes
}

/// Draws a random 64-bit word.
///
/// Trusted: calls `rand::RngCore::next_u64` on `rand::thread_rng()`. Nothing
/// is claimed of the result.
#[verifier::external_body]
pub(crate) fn random_word() -> u64 {
    rand::RngCore::next_u64(&mut rand::thread_rng())
}

} // verus!
