//! The master key, the wrapping key derived from it for each operation, and
//! the optional keyfile that is mixed in.

use vstd::prelude::*;
use crate::primitives::hash::{sha256, sha256_raw, sha256_begin, sha256_absorb, sha256_finish, absorbed, Sha256State};
use crate::primitives::random::os_random;
use crate::primitives::wipe::{wipe, wipe_vec, zeros};
use crate::error::VaultError;

verus! {

/// The 32-byte secret that every envelope is wrapped under.
#[derive(Debug)]
pub struct MasterKey(pub [u8; 32]);

impl View for MasterKey {
    type V = Seq<u8>;

    open spec fn view(&self) -> Seq<u8> {
        self.0@
    }
}

impl MasterKey {
    /// Draws a fresh master key from the operating system's random source.
    pub fn generate() -> (out: Result<MasterKey, VaultError>)
        ensures
            out matches Err(e) ==> e == VaultError::IOFailure,
    {
        match os_random::<32>() {
            Some(bytes) => Ok(MasterKey(bytes)),
            None => Err(VaultError::IOFailure),
        }
    }

    /// A second holder of the same key, for the length of one operation.
    pub fn duplicate(&self) -> (copy: MasterKey)
        ensures
            copy@ == self@,
    {
        MasterKey(self.0)
    }

    /// Overwrites the key with zeros.
    pub fn erase(&mut self)
        ensures
            final(self)@ == zeros(32),
    {
        wipe(&mut self.0);
    }
}

/// The domain tag hashed in when a keyfile takes part: `KEYFILE_MIX`.
pub open spec fn keyfile_tag() -> Seq<u8> {
    seq![0x4bu8, 0x45, 0x59, 0x46, 0x49, 0x4c, 0x45, 0x5f, 0x4d, 0x49, 0x58]
}

/// The domain tag hashed in when no keyfile takes part: `NO_KEYFILE`.
pub open spec fn no_keyfile_tag() -> Seq<u8> {
    seq![0x4eu8, 0x4f, 0x5f, 0x4b, 0x45, 0x59, 0x46, 0x49, 0x4c, 0x45]
}

/// What is hashed to give the wrapping key.
pub open spec fn wrapping_key_input(master_key: Seq<u8>, keyfile: Option<Seq<u8>>) -> Seq<u8> {
    match keyfile {
        Some(k) => master_key + keyfile_tag() + k,
        None => master_key + no_keyfile_tag(),
    }
}

/// The wrapping key: the digest of master key, domain tag and, where there
/// is one, keyfile hash.
pub open spec fn wrapping_key(master_key: Seq<u8>, keyfile: Option<Seq<u8>>) -> Seq<u8> {
    sha256(wrapping_key_input(master_key, keyfile))
}

/// The view of an optional byte string.
pub open spec fn opt_view(bytes: Option<&[u8]>) -> Option<Seq<u8>> {
    match bytes {
        Some(b) => Some(b@),
        None => None,
    }
}

/// Derives the wrapping key for one operation. The caller erases it when
/// the operation is over.
pub fn derive_wrapping_key(master_key: &MasterKey, keyfile: Option<&[u8]>) -> (key: [u8; 32])
    ensures
        key@ == wrapping_key(master_key@, opt_view(keyfile)),
{
    let mut input: Vec<u8> = Vec::new();
    input.extend_from_slice(master_key.0.as_slice());
    match keyfile {
        Some(k) => {
            let tag: [u8; 11] = [0x4b, 0x45, 0x59, 0x46, 0x49, 0x4c, 0x45, 0x5f, 0x4d, 0x49, 0x58];
            assert(tag@ =~= keyfile_tag());
            input.extend_from_slice(tag.as_slice());
            input.extend_from_slice(k);
        },
        None => {
            let tag: [u8; 10] = [0x4e, 0x4f, 0x5f, 0x4b, 0x45, 0x59, 0x46, 0x49, 0x4c, 0x45];
            assert(tag@ =~= no_keyfile_tag());
            input.extend_from_slice(tag.as_slice());
        },
    }
    assert(input@ =~= wrapping_key_input(master_key@, opt_view(keyfile)));
    let key = sha256_raw(input.as_slice());
    wipe_vec(&mut input);
    key
}

/// All blocks of `blocks` one after the other.
pub open spec fn joined(blocks: Seq<Seq<u8>>) -> Seq<u8>
    decreases blocks.len(),
{
    if blocks.len() == 0 {
        Seq::empty()
    } else {
        joined(blocks.drop_last()) + blocks.last()
    }
}

/// A keyfile being hashed block by block, so that it never has to be held
/// whole.
pub struct KeyfileHasher {
    state: Sha256State,
}

impl View for KeyfileHasher {
    type V = Seq<u8>;

    /// The bytes taken in so far.
    closed spec fn view(&self) -> Seq<u8> {
        absorbed(self.state)
    }
}

impl KeyfileHasher {
    /// The size of the blocks a keyfile is read in.
    pub const BLOCK_LEN: usize = 4096;

    /// Starts on an empty keyfile.
    pub fn new() -> (hasher: KeyfileHasher)
        ensures
            hasher@ == Seq::<u8>::empty(),
    {
        KeyfileHasher { state: sha256_begin() }
    }

    /// Takes in the next block.
    pub fn absorb(&mut self, block: &[u8])
        ensures
            final(self)@ == old(self)@ + block@,
    {
        sha256_absorb(&mut self.state, block);
    }

    /// The keyfile hash: the digest of all that was taken in.
    pub fn finish(self) -> (digest: [u8; 32])
        ensures
            digest@ == sha256(self@),
    {
        sha256_finish(self.state)
    }
}

/// Hashes a keyfile handed over as the blocks it was read in.
pub fn hash_blocks(blocks: &Vec<Vec<u8>>) -> (digest: [u8; 32])
    ensures
        digest@ == sha256(joined(blocks.deep_view())),
{
    let mut hasher = KeyfileHasher::new();
    let mut i: usize = 0;
    while i < blocks.len()
        invariant
            i <= blocks.len(),
            hasher@ == joined(blocks.deep_view().take(i as int)),
        decreases blocks.len() - i,
    {
        hasher.absorb(blocks[i].as_slice());
        proof {
            let next = blocks.deep_view().take(i + 1);
            assert(next.drop_last() =~= blocks.deep_view().take(i as int));
            assert(next.last() == blocks[i as int]@);
        }
        i += 1;
    }
    assert(blocks.deep_view().take(i as int) =~= blocks.deep_view());
    hasher.finish()
}

/// The keyfile hash does not depend on how the keyfile was cut into
/// blocks: two sequences of blocks that hold the same bytes hash alike.
pub proof fn lemma_keyfile_hash_ignores_blocking(first: Seq<Seq<u8>>, second: Seq<Seq<u8>>)
    requires
        joined(first) == joined(second),
    ensures
        sha256(joined(first)) == sha256(joined(second)),
{
}

/// A keyfile read as one block hashes to the digest of its bytes.
pub proof fn lemma_single_block(bytes: Seq<u8>)
    ensures
        joined(seq![bytes]) == bytes,
{
    reveal_with_fuel(joined, 2);
    assert(seq![bytes].drop_last() =~= Seq::<Seq<u8>>::empty());
    assert(joined(seq![bytes]) =~= bytes);
}

/// Cutting a keyfile in two at any place leaves its bytes as they are.
pub proof fn lemma_split_block(bytes: Seq<u8>, at: int)
    requires
        0 <= at <= bytes.len(),
    ensures
        joined(seq![bytes.subrange(0, at), bytes.subrange(at, bytes.len() as int)]) == bytes,
{
    let two = seq![bytes.subrange(0, at), bytes.subrange(at, bytes.len() as int)];
    assert(two.drop_last() =~= seq![bytes.subrange(0, at)]);
    lemma_single_block(bytes.subrange(0, at));
    assert(joined(two) =~= bytes);
}

} // verus!
