//! SHA-256, in one call and as a running computation.

use vstd::prelude::*;

verus! {

/// The SHA-256 digest of `data`.
pub uninterp spec fn sha256(data: Seq<u8>) -> Seq<u8>;

/// Calls `sha2::Sha256::digest`. Trusted: the 32 bytes returned are the
/// SHA-256 digest of `data`.
#[verifier::external_body]
pub(crate) fn sha256_raw(data: &[u8]) -> (digest: [u8; 32])
    ensures
        digest@ == sha256(data@),
{
    <sha2::Sha256 as sha2::Digest>::digest(data).into()
}

/// A running SHA-256 computation: a hasher of `sha2` that has taken in
/// some bytes. What the library knows of it is what `absorbed` names.
#[verifier::external_body]
pub struct Sha256State {
    inner: sha2::Sha256,
}

/// The bytes that a running computation has taken in so far, in order.
pub uninterp spec fn absorbed(state: Sha256State) -> Seq<u8>;

/// Calls `sha2::Sha256::new`. Trusted: a fresh computation has taken in
/// nothing.
#[verifier::external_body]
pub(crate) fn sha256_begin() -> (state: Sha256State)
    ensures
        absorbed(state) == Seq::<u8>::empty(),
{
    Sha256State { inner: <sha2::Sha256 as sha2::Digest>::new() }
}

/// Calls `sha2::Digest::update`. Trusted: the computation has taken in
/// `block` after what it held before.
#[verifier::external_body]
pub(crate) fn sha256_absorb(state: &mut Sha256State, block: &[u8])
    ensures
        absorbed(*final(state)) == absorbed(*old(state)) + block@,
{
    sha2::Digest::update(&mut state.inner, block);
}

/// Calls `sha2::Digest::finalize`. Trusted: the result is the SHA-256
/// digest of everything taken in.
#[verifier::external_body]
pub(crate) fn sha256_finish(state: Sha256State) -> (digest: [u8; 32])
    ensures
        digest@ == sha256(absorbed(state)),
{
    sha2::Digest::finalize(state.inner).into()
}

/// Hashes `data`.
pub fn digest(data: &[u8]) -> (out: [u8; 32])
    ensures
        out@ == sha256(data@),
{
    sha256_raw(data)
}

} // verus!
