//! Key material that is wiped when it goes out of use.

use vstd::prelude::*;

verus! {

/// Overwrites the bytes of `bytes` with zeros and empties it.
///
/// Trusted: calls `zeroize::Zeroize::zeroize` on the vector (through the
/// re-export of `secrecy`), which zeroes every element and the spare
/// capacity with writes the compiler may not remove, then clears the vector.
/// It does not panic.
#[verifier::external_body]
pub(crate) fn wipe(bytes: &mut Vec<u8>)
    ensures
        final(bytes)@ == Seq::<u8>::empty(),
    opens_invariants none
    no_unwind
{
    secrecy::Zeroize::zeroize(bytes);
}

/// Raw key material. The bytes are wiped when the value is dropped.
pub struct Secret {
    bytes: Vec<u8>,
}

impl View for Secret {
    type V = Seq<u8>;

    closed spec fn view(&self) -> Seq<u8> {
        self.bytes@
    }
}

impl Secret {
    /// Takes ownership of `bytes` as a secret.
    pub fn new(bytes: Vec<u8>) -> (s: Secret)
        ensures
            s@ == bytes@,
    {
        Secret { bytes }
    }

    /// The bytes of the secret.
    pub fn expose(&self) -> (bytes: &Vec<u8>)
        ensures
            bytes@ == self@,
    {
        &self.bytes
    }

    /// The number of bytes in the secret.
    pub fn len(&self) -> (n: usize)
        ensures
            n == self@.len(),
    {
        self.bytes.len()
    }

    /// Wipes the secret in place; it is empty afterwards.
    pub fn scrub(&mut self)
        ensures
            final(self)@ == Seq::<u8>::empty(),
        opens_invariants none
        no_unwind
    {
        wipe(&mut self.bytes);
    }
}

impl Drop for Secret {
    /// The bytes are wiped when the secret goes away.
    fn drop(&mut self)
        opens_invariants none
        no_unwind
    {
        self.scrub();
    }
}

} // verus!
