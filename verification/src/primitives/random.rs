//! Random bytes: from the operating system, and from a seeded ChaCha20
//! keystream.

use vstd::prelude::*;

verus! {

/// The byte at `index` of the ChaCha20 keystream that `seed` determines
/// (stream number zero, words in little-endian order).
pub uninterp spec fn chacha20_byte(seed: Seq<u8>, index: nat) -> u8;

/// Calls `OsRng::try_fill_bytes` of `rand`. Trusted: only that `N` bytes
/// come back, or nothing where the operating system's source fails.
#[verifier::external_body]
pub(crate) fn os_random<const N: usize>() -> (out: Option<[u8; N]>)
{
    let mut buf = [0u8; N];
    rand::RngCore::try_fill_bytes(&mut rand::rngs::OsRng, &mut buf).ok()?;
    Some(buf)
}

/// Calls `ChaCha20Rng::from_seed`, `set_word_pos` and `fill_bytes` of
/// `rand_chacha`. Trusted: the result holds the `len` keystream bytes that
/// start at 32-bit word `word_pos`.
#[verifier::external_body]
pub(crate) fn chacha20_fill(seed: &[u8; 32], word_pos: u64, len: usize) -> (out: Vec<u8>)
    ensures
        out@.len() == len,
        forall|i: int| 0 <= i < len ==> out@[i] == chacha20_byte(seed@, (4 * word_pos + i) as nat),
{
    let mut rng = <rand_chacha::ChaCha20Rng as rand::SeedableRng>::from_seed(*seed);
    rng.set_word_pos(word_pos as u128);
    let mut out = vec![0u8; len];
    rand::RngCore::fill_bytes(&mut rng, &mut out);
    out
}

/// The `len` keystream bytes of `seed` that start at 32-bit word
/// `word_pos`.
pub open spec fn keystream(seed: Seq<u8>, word_pos: nat, len: nat) -> Seq<u8> {
    Seq::new(len, |i: int| chacha20_byte(seed, (4 * word_pos + i) as nat))
}

/// Reads `len` bytes of the keystream of `seed`, starting at 32-bit word
/// `word_pos`.
pub fn seeded_bytes(seed: &[u8; 32], word_pos: u64, len: usize) -> (out: Vec<u8>)
    ensures
        out@ == keystream(seed@, word_pos as nat, len as nat),
{
    let out = chacha20_fill(seed, word_pos, len);
    assert(out@ =~= keystream(seed@, word_pos as nat, len as nat));
    out
}

} // verus!
