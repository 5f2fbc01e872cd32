//! Overwriting secrets in memory.

use vstd::prelude::*;

verus! {

/// Calls `Zeroize::zeroize` of `zeroize` on a byte array. Trusted: every
/// byte is zero afterwards.
#[verifier::external_body]
pub(crate) fn zeroize_array<const N: usize>(buf: &mut [u8; N])
    ensures
        forall|i: int| 0 <= i < N ==> final(buf)@[i] == 0u8,
{
    zeroize::Zeroize::zeroize(buf);
}

/// Calls `Zeroize::zeroize` of `zeroize` on a vector. Trusted: the vector
/// is empty afterwards (its old bytes are overwritten before).
#[verifier::external_body]
pub(crate) fn zeroize_vec(buf: &mut Vec<u8>)
    ensures
        final(buf)@.len() == 0,
{
    zeroize::Zeroize::zeroize(buf);
}

/// The sequence of `n` zero bytes.
pub open spec fn zeros(n: nat) -> Seq<u8> {
    Seq::new(n, |i: int| 0u8)
}

/// Overwrites a key with zeros.
pub fn wipe<const N: usize>(key: &mut [u8; N])
    ensures
        final(key)@ == zeros(N as nat),
{
    zeroize_array(key);
    assert(key@ =~= zeros(N as nat));
}

/// Overwrites a buffer with zeros and empties it.
pub fn wipe_vec(buf: &mut Vec<u8>)
    ensures
        final(buf)@ == Seq::<u8>::empty(),
{
    zeroize_vec(buf);
    assert(buf@ =~= Seq::<u8>::empty());
}

} // verus!
