//! A seeded, deterministic source of bytes: the ChaCha20 keystream of a
//! 32-byte seed, read front to back.

use vstd::prelude::*;
use crate::codec::get_array;
use crate::primitives::random::{keystream, seeded_bytes};
use crate::primitives::wipe::wipe;

verus! {

/// A generator that hands out the keystream of its seed. What it hands
/// out depends on nothing but the seed and how much was taken before.
pub struct SecureEngine {
    seed: [u8; 32],
    word_pos: u64,
}

/// The mathematical value of a [`SecureEngine`].
pub struct EngineView {
    /// The seed.
    pub seed: Seq<u8>,
    /// How many 32-bit words of the keystream were taken.
    pub word_pos: nat,
}

impl View for SecureEngine {
    type V = EngineView;

    closed spec fn view(&self) -> EngineView {
        EngineView { seed: self.seed@, word_pos: self.word_pos as nat }
    }
}

/// How many 32-bit words a request for `len` bytes takes: a word that
/// was begun is used up.
pub open spec fn words_for(len: nat) -> nat {
    (len + 3) / 4
}

/// The position after `len` bytes were taken at `word_pos`. It wraps
/// after 2^64 words.
pub open spec fn advanced(word_pos: nat, len: nat) -> nat {
    ((word_pos + words_for(len)) % 0x1_0000_0000_0000_0000) as nat
}

impl SecureEngine {
    /// A generator at the start of the keystream of `seed`.
    pub fn new(seed: [u8; 32]) -> (engine: SecureEngine)
        ensures
            engine@ == (EngineView { seed: seed@, word_pos: 0 }),
    {
        SecureEngine { seed, word_pos: 0 }
    }

    /// Takes the next `len` bytes of the keystream.
    pub fn next_bytes(&mut self, len: usize) -> (out: Vec<u8>)
        ensures
            out@ == keystream(old(self)@.seed, old(self)@.word_pos, len as nat),
            final(self)@.seed == old(self)@.seed,
            final(self)@.word_pos == advanced(old(self)@.word_pos, len as nat),
    {
        let out = seeded_bytes(&self.seed, self.word_pos, len);
        let words = ((len as u128 + 3) / 4) as u64;
        self.word_pos = self.word_pos.wrapping_add(words);
        out
    }

    /// Fills `dest` with the next bytes of the keystream.
    pub fn fill_bytes(&mut self, dest: &mut [u8])
        ensures
            final(dest)@ == keystream(old(self)@.seed, old(self)@.word_pos, old(dest)@.len()),
            final(self)@.seed == old(self)@.seed,
            final(self)@.word_pos == advanced(old(self)@.word_pos, old(dest)@.len()),
    {
        let len = dest.len();
        let bytes = self.next_bytes(len);
        let mut i: usize = 0;
        while i < len
            invariant
                i <= len,
                len == dest@.len(),
                len == bytes@.len(),
                forall|j: int| 0 <= j < i ==> dest@[j] == bytes@[j],
            decreases len - i,
        {
            dest[i] = bytes[i];
            i += 1;
        }
        assert(dest@ =~= bytes@);
    }

    /// Takes the next 32 bytes of the keystream as a cipher key.
    pub fn gen_aes_key(&mut self) -> (key: [u8; 32])
        ensures
            key@ == keystream(old(self)@.seed, old(self)@.word_pos, 32),
            final(self)@.seed == old(self)@.seed,
            final(self)@.word_pos == advanced(old(self)@.word_pos, 32),
    {
        let bytes = self.next_bytes(32);
        get_array::<32>(bytes.as_slice(), 0)
    }

    /// Overwrites the seed with zeros. The generator is at the start of
    /// the keystream of the zero seed afterwards.
    pub fn erase(&mut self)
        ensures
            final(self)@ == (EngineView { seed: crate::primitives::wipe::zeros(32), word_pos: 0 }),
    {
        wipe(&mut self.seed);
        self.word_pos = 0;
    }
}

/// Two generators with the same seed that have handed out the same
/// amount hand out the same bytes.
pub proof fn lemma_same_seed_same_bytes(first: EngineView, second: EngineView, len: nat)
    requires
        first == second,
    ensures
        keystream(first.seed, first.word_pos, len) == keystream(second.seed, second.word_pos, len),
        advanced(first.word_pos, len) == advanced(second.word_pos, len),
{
}

/// Taking bytes in two requests gives the same bytes as taking them in
/// one, where the first request ends on a word.
pub proof fn lemma_requests_join(seed: Seq<u8>, word_pos: nat, first: nat, second: nat)
    requires
        first % 4 == 0,
    ensures
        keystream(seed, word_pos, first) + keystream(seed, word_pos + words_for(first), second)
            == keystream(seed, word_pos, first + second),
{
    assert(keystream(seed, word_pos, first) + keystream(seed, word_pos + words_for(first), second)
        =~= keystream(seed, word_pos, first + second));
}

} // verus!
