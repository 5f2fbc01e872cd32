//! Mixing what the user typed into a seed.

use vstd::prelude::*;
use vstd::utf8::encode_utf8;
use crate::codec::{put_bytes, put_u64_le, u64_le};
use crate::primitives::hash::{sha256, sha256_raw};
use crate::primitives::wipe::wipe_vec;

verus! {

/// The sixteen bytes of `x`, least significant first.
pub open spec fn u128_le(x: u128) -> Seq<u8> {
    u64_le((x % 0x1_0000_0000_0000_0000) as u64) + u64_le((x / 0x1_0000_0000_0000_0000) as u64)
}

/// What is hashed to give the seed: the bytes from the operating system,
/// what the user typed, and the time in nanoseconds.
pub open spec fn entropy_input(os_entropy: Seq<u8>, typed: Seq<char>, nanos: u128) -> Seq<u8> {
    os_entropy + encode_utf8(typed) + u128_le(nanos)
}

/// Mixes 32 bytes from the operating system with what the user typed and
/// with the time, into a 32-byte seed. What the user gives is added to
/// what the system gives; it never stands in its place.
pub fn collect_user_entropy(os_entropy: &[u8; 32], typed: &str, nanos: u128) -> (seed: [u8; 32])
    ensures
        seed@ == sha256(entropy_input(os_entropy@, typed@, nanos)),
{
    let mut input: Vec<u8> = Vec::new();
    put_bytes(&mut input, os_entropy.as_slice());
    put_bytes(&mut input, typed.as_bytes());
    put_u64_le(&mut input, (nanos % 0x1_0000_0000_0000_0000) as u64);
    put_u64_le(&mut input, (nanos / 0x1_0000_0000_0000_0000) as u64);
    assert(input@ =~= entropy_input(os_entropy@, typed@, nanos));
    let seed = sha256_raw(input.as_slice());
    wipe_vec(&mut input);
    seed
}

/// Hashes extra entropy handed over as bytes into a seed.
pub fn seed_from_bytes(extra_entropy: &[u8]) -> (seed: [u8; 32])
    ensures
        seed@ == sha256(extra_entropy@),
{
    sha256_raw(extra_entropy)
}

} // verus!
