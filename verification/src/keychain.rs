//! The keychain: the master key sealed twice, once under the password and
//! once under the recovery code, with the key-derivation costs it was
//! sealed at.

use vstd::prelude::*;
use vstd::utf8::encode_utf8;
use crate::codec::get_array;
use crate::error::VaultError;
use crate::keys::MasterKey;
use crate::primitives::aead::{aead_opened, open, seal, seals};
use crate::primitives::ids::{fresh_uuid, is_uuid_v4_text};
use crate::primitives::kdf::{derive_kek, fresh_salt, is_salt_text, kdf_output};
use crate::primitives::random::os_random;
use crate::primitives::wipe::{wipe, wipe_vec};
use crate::recovery::{format_recovery_code, recovery_code_text};

verus! {

/// Memory cost of new keychains, in KiB. Also what a stored keychain
/// without this field means.
pub fn default_kdf_memory() -> (cost: u32)
    ensures
        cost == 19456,
{
    19456
}

/// Iteration count of new keychains.
pub fn default_kdf_iterations() -> (cost: u32)
    ensures
        cost == 2,
{
    2
}

/// Degree of parallelism of new keychains.
pub fn default_kdf_parallelism() -> (cost: u32)
    ensures
        cost == 1,
{
    1
}

/// The stored keychain.
#[derive(Debug)]
pub struct KeychainStore {
    /// Identifies the vault. Not secret.
    pub vault_id: String,
    /// Memory cost of the key derivation, in KiB.
    pub kdf_memory: u32,
    /// Iteration count of the key derivation.
    pub kdf_iterations: u32,
    /// Degree of parallelism of the key derivation.
    pub kdf_parallelism: u32,
    /// Salt of the password slot, in base64.
    pub password_salt: String,
    /// Nonce of the password slot.
    pub password_nonce: Vec<u8>,
    /// The master key sealed under the password.
    pub encrypted_master_key_pass: Vec<u8>,
    /// Salt of the recovery slot, in base64.
    pub recovery_salt: String,
    /// Nonce of the recovery slot.
    pub recovery_nonce: Vec<u8>,
    /// The master key sealed under the recovery code.
    pub encrypted_master_key_recovery: Vec<u8>,
}

/// One of the two slots of a keychain.
pub struct SlotView {
    pub salt: Seq<char>,
    pub nonce: Seq<u8>,
    pub sealed: Seq<u8>,
}

/// The costs a keychain was sealed at.
pub struct KdfCosts {
    pub memory: u32,
    pub iterations: u32,
    pub parallelism: u32,
}

/// The mathematical value of a [`KeychainStore`].
pub struct StoreView {
    pub vault_id: Seq<char>,
    pub costs: KdfCosts,
    pub password_slot: SlotView,
    pub recovery_slot: SlotView,
}

impl View for KeychainStore {
    type V = StoreView;

    open spec fn view(&self) -> StoreView {
        StoreView {
            vault_id: self.vault_id@,
            costs: KdfCosts {
                memory: self.kdf_memory,
                iterations: self.kdf_iterations,
                parallelism: self.kdf_parallelism,
            },
            password_slot: SlotView {
                salt: self.password_salt@,
                nonce: self.password_nonce@,
                sealed: self.encrypted_master_key_pass@,
            },
            recovery_slot: SlotView {
                salt: self.recovery_salt@,
                nonce: self.recovery_nonce@,
                sealed: self.encrypted_master_key_recovery@,
            },
        }
    }
}

/// What opening a slot with `secret` gives: the master key, or why not. A
/// nonce that is not 12 bytes, or a key that is not 32, is malformed; a
/// salt or costs that the key derivation refuses are a derivation failure;
/// a slot that does not authenticate is a bad credential.
pub open spec fn slot_opened(slot: SlotView, costs: KdfCosts, secret: Seq<u8>) -> Result<Seq<u8>, VaultError> {
    if slot.nonce.len() != 12 {
        Err(VaultError::Malformed)
    } else {
        match kdf_output(secret, slot.salt, costs.memory, costs.iterations, costs.parallelism) {
            None => Err(VaultError::KdfFailure),
            Some(kek) => match aead_opened(kek, slot.nonce, Seq::empty(), slot.sealed) {
                None => Err(VaultError::BadCredential),
                Some(key) => if key.len() != 32 {
                    Err(VaultError::Malformed)
                } else {
                    Ok(key)
                },
            },
        }
    }
}

/// That `slot` was sealed to hold `master_key` under `secret`.
pub open spec fn slot_holds(slot: SlotView, costs: KdfCosts, secret: Seq<u8>, master_key: Seq<u8>) -> bool {
    &&& slot.nonce.len() == 12
    &&& master_key.len() == 32
    &&& kdf_output(secret, slot.salt, costs.memory, costs.iterations, costs.parallelism) matches Some(kek)
    &&& seals(kek, slot.nonce, Seq::empty(), master_key, slot.sealed)
}

impl StoreView {
    /// What unlocking with `password` gives.
    pub open spec fn password_unlocks(self, password: Seq<char>) -> Result<Seq<u8>, VaultError> {
        slot_opened(self.password_slot, self.costs, encode_utf8(password))
    }

    /// What recovering with `code` gives.
    pub open spec fn recovery_unlocks(self, code: Seq<char>) -> Result<Seq<u8>, VaultError> {
        slot_opened(self.recovery_slot, self.costs, encode_utf8(code))
    }

    /// That the keychain holds `master_key` in both slots: under
    /// `password` in the one and under `code` in the other.
    pub open spec fn holds(self, password: Seq<char>, code: Seq<char>, master_key: Seq<u8>) -> bool {
        &&& slot_holds(self.password_slot, self.costs, encode_utf8(password), master_key)
        &&& slot_holds(self.recovery_slot, self.costs, encode_utf8(code), master_key)
    }
}

/// A slot that was sealed to hold a key opens to that key.
pub proof fn lemma_slot_opens(slot: SlotView, costs: KdfCosts, secret: Seq<u8>, master_key: Seq<u8>)
    requires
        slot_holds(slot, costs, secret, master_key),
    ensures
        slot_opened(slot, costs, secret) == Ok::<Seq<u8>, VaultError>(master_key),
{
}

/// In a keychain that holds a master key, opening the password slot and
/// opening the recovery slot give the same key.
pub proof fn lemma_slots_agree(store: StoreView, password: Seq<char>, code: Seq<char>, master_key: Seq<u8>)
    requires
        store.holds(password, code, master_key),
    ensures
        store.password_unlocks(password) == Ok::<Seq<u8>, VaultError>(master_key),
        store.recovery_unlocks(code) == Ok::<Seq<u8>, VaultError>(master_key),
        store.password_unlocks(password) == store.recovery_unlocks(code),
{
}

/// Rewriting the password slot to hold the same key leaves the keychain
/// holding that key: under the new password and the old recovery code.
pub proof fn lemma_password_change_keeps_key(
    before: StoreView,
    after: StoreView,
    old_password: Seq<char>,
    new_password: Seq<char>,
    code: Seq<char>,
    master_key: Seq<u8>,
)
    requires
        before.holds(old_password, code, master_key),
        after.costs == before.costs,
        after.recovery_slot == before.recovery_slot,
        slot_holds(after.password_slot, after.costs, encode_utf8(new_password), master_key),
    ensures
        after.holds(new_password, code, master_key),
        after.recovery_unlocks(code) == before.recovery_unlocks(code),
{
}

/// Rewriting the recovery slot to hold the same key leaves the keychain
/// holding that key: under the old password and the new recovery code.
pub proof fn lemma_recovery_rotation_keeps_key(
    before: StoreView,
    after: StoreView,
    password: Seq<char>,
    old_code: Seq<char>,
    new_code: Seq<char>,
    master_key: Seq<u8>,
)
    requires
        before.holds(password, old_code, master_key),
        after.costs == before.costs,
        after.password_slot == before.password_slot,
        slot_holds(after.recovery_slot, after.costs, encode_utf8(new_code), master_key),
    ensures
        after.holds(password, new_code, master_key),
        after.password_unlocks(password) == before.password_unlocks(password),
{
}

/// A freshly sealed slot.
pub struct SealedSlot {
    pub salt: String,
    pub nonce: [u8; 12],
    pub sealed: Vec<u8>,
}

impl View for SealedSlot {
    type V = SlotView;

    open spec fn view(&self) -> SlotView {
        SlotView { salt: self.salt@, nonce: self.nonce@, sealed: self.sealed@ }
    }
}

/// Seals `master_key` under the key derived from `secret` and `salt`.
/// Fails exactly where the key derivation refuses the salt or the costs.
pub fn seal_slot(
    master_key: &MasterKey,
    secret: &str,
    salt: String,
    nonce: [u8; 12],
    memory: u32,
    iterations: u32,
    parallelism: u32,
) -> (out: Result<SealedSlot, VaultError>)
    ensures
        out is Ok <==> kdf_output(encode_utf8(secret@), salt@, memory, iterations, parallelism) is Some,
        out matches Ok(slot) ==> slot@.salt == salt@ && slot@.nonce == nonce@ && slot_holds(
            slot@,
            KdfCosts { memory, iterations, parallelism },
            encode_utf8(secret@),
            master_key@,
        ),
        out matches Err(e) ==> e == VaultError::KdfFailure,
{
    let mut kek = match derive_kek(secret, salt.as_str(), memory, iterations, parallelism) {
        Ok(k) => k,
        Err(_) => { return Err(VaultError::KdfFailure); },
    };
    let empty: Vec<u8> = Vec::new();
    assert(empty@ =~= Seq::<u8>::empty());
    let sealed = seal(&kek, &nonce, empty.as_slice(), master_key.0.as_slice());
    wipe(&mut kek);
    match sealed {
        Ok(s) => Ok(SealedSlot { salt, nonce, sealed: s }),
        Err(_) => Err(VaultError::KdfFailure),
    }
}

/// Opens a slot with `secret`.
pub fn open_slot(
    salt: &str,
    nonce: &Vec<u8>,
    sealed: &Vec<u8>,
    memory: u32,
    iterations: u32,
    parallelism: u32,
    secret: &str,
) -> (out: Result<MasterKey, VaultError>)
    ensures
        slot_opened(
            SlotView { salt: salt@, nonce: nonce@, sealed: sealed@ },
            KdfCosts { memory, iterations, parallelism },
            encode_utf8(secret@),
        ) == (match out {
            Ok(k) => Ok(k@),
            Err(e) => Err(e),
        }),
{
    if nonce.len() != 12 {
        return Err(VaultError::Malformed);
    }
    let nonce_array = get_array::<12>(nonce.as_slice(), 0);
    assert(nonce_array@ =~= nonce@);
    let mut kek = match derive_kek(secret, salt, memory, iterations, parallelism) {
        Ok(k) => k,
        Err(_) => { return Err(VaultError::KdfFailure); },
    };
    let empty: Vec<u8> = Vec::new();
    assert(empty@ =~= Seq::<u8>::empty());
    let opened = open(&kek, &nonce_array, empty.as_slice(), sealed.as_slice());
    wipe(&mut kek);
    let mut key_bytes = match opened {
        Some(k) => k,
        None => { return Err(VaultError::BadCredential); },
    };
    if key_bytes.len() != 32 {
        wipe_vec(&mut key_bytes);
        return Err(VaultError::Malformed);
    }
    let key = MasterKey(get_array::<32>(key_bytes.as_slice(), 0));
    assert(key@ =~= key_bytes@);
    wipe_vec(&mut key_bytes);
    Ok(key)
}

/// The random values that go into a new keychain.
pub struct KeychainMaterial {
    pub vault_id: String,
    pub password_salt: String,
    pub password_nonce: [u8; 12],
    pub recovery_groups: [u16; 4],
    pub recovery_salt: String,
    pub recovery_nonce: [u8; 12],
}

/// When a new keychain can be built: the key derivation accepts both
/// salts at the default costs.
pub open spec fn can_build(password: Seq<char>, m: KeychainMaterial) -> bool {
    &&& kdf_output(encode_utf8(password), m.password_salt@, 19456, 2, 1) is Some
    &&& kdf_output(encode_utf8(recovery_code_text(m.recovery_groups@)), m.recovery_salt@, 19456, 2, 1) is Some
}

/// Builds a new keychain around `master_key` from the given random
/// material, at the default costs. Gives the recovery code and the
/// keychain.
pub fn build_keychain(password: &str, master_key: &MasterKey, material: KeychainMaterial) -> (out: Result<
    (String, KeychainStore),
    VaultError,
>)
    ensures
        out is Ok <==> can_build(password@, material),
        out matches Ok((code, store)) ==> {
            &&& code@ == recovery_code_text(material.recovery_groups@)
            &&& store@.vault_id == material.vault_id@
            &&& store@.costs == KdfCosts { memory: 19456, iterations: 2, parallelism: 1 }
            &&& store@.password_slot.salt == material.password_salt@
            &&& store@.password_slot.nonce == material.password_nonce@
            &&& store@.recovery_slot.salt == material.recovery_salt@
            &&& store@.recovery_slot.nonce == material.recovery_nonce@
            &&& store@.holds(password@, code@, master_key@)
            &&& store@.password_unlocks(password@) == Ok::<Seq<u8>, VaultError>(master_key@)
            &&& store@.recovery_unlocks(code@) == Ok::<Seq<u8>, VaultError>(master_key@)
        },
        out matches Err(e) ==> e == VaultError::KdfFailure,
{
    let memory = default_kdf_memory();
    let iterations = default_kdf_iterations();
    let parallelism = default_kdf_parallelism();
    let code = format_recovery_code(&material.recovery_groups);
    let password_slot = match seal_slot(
        master_key,
        password,
        material.password_salt,
        material.password_nonce,
        memory,
        iterations,
        parallelism,
    ) {
        Ok(s) => s,
        Err(e) => { return Err(e); },
    };
    let recovery_slot = match seal_slot(
        master_key,
        code.as_str(),
        material.recovery_salt,
        material.recovery_nonce,
        memory,
        iterations,
        parallelism,
    ) {
        Ok(s) => s,
        Err(e) => { return Err(e); },
    };
    let store = KeychainStore {
        vault_id: material.vault_id,
        kdf_memory: memory,
        kdf_iterations: iterations,
        kdf_parallelism: parallelism,
        password_salt: password_slot.salt,
        password_nonce: crate::codec::get_bytes(password_slot.nonce.as_slice(), 0, 12),
        encrypted_master_key_pass: password_slot.sealed,
        recovery_salt: recovery_slot.salt,
        recovery_nonce: crate::codec::get_bytes(recovery_slot.nonce.as_slice(), 0, 12),
        encrypted_master_key_recovery: recovery_slot.sealed,
    };
    proof {
        assert(store.password_nonce@ =~= password_slot.nonce@);
        assert(store.recovery_nonce@ =~= recovery_slot.nonce@);
        assert(store@.password_slot == password_slot@);
        assert(store@.recovery_slot == recovery_slot@);
        lemma_slots_agree(store@, password@, code@, master_key@);
    }
    Ok((code, store))
}

/// The shape that drawn material has, whatever was drawn: the vault
/// identifier is a version 4 identifier in its text form, and each slot
/// has a salt of its own, 22 characters of base64 that stand for 16
/// bytes.
pub open spec fn is_drawn_material(m: KeychainMaterial) -> bool {
    &&& is_uuid_v4_text(m.vault_id@)
    &&& is_salt_text(m.password_salt@)
    &&& is_salt_text(m.recovery_salt@)
}

/// Draws the random material of a new keychain: a vault identifier, and
/// for each of the two slots a salt and a nonce, and the four numbers of
/// the recovery code. Fails only where the operating system's random
/// source does.
pub fn draw_keychain_material() -> (out: Result<KeychainMaterial, VaultError>)
    ensures
        out matches Ok(m) ==> is_drawn_material(m),
        out matches Err(e) ==> e == VaultError::IOFailure,
{
    let (password_salt, password_nonce) = match draw_slot_material() {
        Ok(m) => m,
        Err(e) => { return Err(e); },
    };
    let (recovery_salt, recovery_nonce) = match draw_slot_material() {
        Ok(m) => m,
        Err(e) => { return Err(e); },
    };
    let recovery_groups = match draw_recovery_groups() {
        Ok(g) => g,
        Err(e) => { return Err(e); },
    };
    let vault_id = match fresh_uuid() {
        Ok(id) => id,
        Err(e) => { return Err(e); },
    };
    Ok(
        KeychainMaterial {
            vault_id,
            password_salt,
            password_nonce,
            recovery_groups,
            recovery_salt,
            recovery_nonce,
        },
    )
}

/// Draws what one slot is sealed with: a salt and a nonce. Fails only
/// where the operating system's random source does.
pub fn draw_slot_material() -> (out: Result<(String, [u8; 12]), VaultError>)
    ensures
        out matches Ok(m) ==> is_salt_text(m.0@),
        out matches Err(e) ==> e == VaultError::IOFailure,
{
    let nonce = match os_random::<12>() {
        Some(n) => n,
        None => { return Err(VaultError::IOFailure); },
    };
    match fresh_salt() {
        Ok(salt) => Ok((salt, nonce)),
        Err(e) => Err(e),
    }
}

/// The number that two bytes spell, the first the more significant.
pub open spec fn group_of(high: u8, low: u8) -> u16 {
    (high as int * 256 + low as int) as u16
}

/// The four numbers of a recovery code that eight bytes spell, two bytes
/// each.
pub fn groups_from_bytes(bytes: &[u8; 8]) -> (groups: [u16; 4])
    ensures
        forall|i: int| 0 <= i < 4 ==> groups@[i] == group_of(bytes@[2 * i], bytes@[2 * i + 1]),
{
    [
        bytes[0] as u16 * 256 + bytes[1] as u16,
        bytes[2] as u16 * 256 + bytes[3] as u16,
        bytes[4] as u16 * 256 + bytes[5] as u16,
        bytes[6] as u16 * 256 + bytes[7] as u16,
    ]
}

/// Draws the four numbers of a recovery code from the operating system's
/// random source, two bytes each. Fails only where the source does.
pub fn draw_recovery_groups() -> (out: Result<[u16; 4], VaultError>)
    ensures
        out matches Err(e) ==> e == VaultError::IOFailure,
{
    match os_random::<8>() {
        Some(bytes) => Ok(groups_from_bytes(&bytes)),
        None => Err(VaultError::IOFailure),
    }
}

/// Creates a new keychain: a fresh master key sealed under `password` and
/// under a fresh recovery code, which is handed out here and nowhere
/// else. The keychain gets an identifier in the form of a random UUID,
/// and each slot a salt of its own that stands for 16 bytes and a nonce
/// of 12. Refuses where a keychain already exists.
pub fn init_keychain(password: &str, already_exists: bool) -> (out: Result<
    (String, MasterKey, KeychainStore),
    VaultError,
>)
    ensures
        already_exists ==> out == Err::<(String, MasterKey, KeychainStore), VaultError>(
            VaultError::KeychainExists,
        ),
        out matches Ok((code, key, store)) ==> {
            &&& crate::recovery::is_recovery_code(code@)
            &&& is_uuid_v4_text(store@.vault_id)
            &&& store@.costs == KdfCosts { memory: 19456, iterations: 2, parallelism: 1 }
            &&& is_salt_text(store@.password_slot.salt)
            &&& is_salt_text(store@.recovery_slot.salt)
            &&& store@.password_slot.nonce.len() == 12
            &&& store@.recovery_slot.nonce.len() == 12
            &&& store@.holds(password@, code@, key@)
            &&& store@.password_unlocks(password@) == Ok::<Seq<u8>, VaultError>(key@)
            &&& store@.recovery_unlocks(code@) == Ok::<Seq<u8>, VaultError>(key@)
        },
        out matches Err(e) ==> {
            &&& e == VaultError::KeychainExists || e == VaultError::IOFailure || e
                == VaultError::KdfFailure
            &&& e == VaultError::KeychainExists <==> already_exists
        },
{
    if already_exists {
        return Err(VaultError::KeychainExists);
    }
    let key = match MasterKey::generate() {
        Ok(k) => k,
        Err(e) => { return Err(e); },
    };
    let material = match draw_keychain_material() {
        Ok(m) => m,
        Err(e) => { return Err(e); },
    };
    proof {
        crate::recovery::lemma_formatted_code_is_valid(material.recovery_groups@);
    }
    match build_keychain(password, &key, material) {
        Ok((code, store)) => Ok((code, key, store)),
        Err(e) => Err(e),
    }
}

/// Unlocks the keychain with the password. Without a keychain, setup is
/// needed first.
pub fn unlock_keychain(store: Option<&KeychainStore>, password: &str) -> (out: Result<MasterKey, VaultError>)
    ensures
        match store {
            None => out == Err::<MasterKey, VaultError>(VaultError::SetupNeeded),
            Some(s) => s@.password_unlocks(password@) == (match out {
                Ok(k) => Ok(k@),
                Err(e) => Err(e),
            }),
        },
{
    match store {
        None => Err(VaultError::SetupNeeded),
        Some(s) => open_slot(
            s.password_salt.as_str(),
            &s.password_nonce,
            &s.encrypted_master_key_pass,
            s.kdf_memory,
            s.kdf_iterations,
            s.kdf_parallelism,
            password,
        ),
    }
}

/// Rewrites the password slot to hold `master_key` under `new_password`,
/// with the given salt and nonce and at the keychain's own costs. The
/// recovery slot is left as it is. On failure nothing changes.
pub fn change_password_with(
    store: &mut KeychainStore,
    master_key: &MasterKey,
    new_password: &str,
    salt: String,
    nonce: [u8; 12],
) -> (out: Result<(), VaultError>)
    ensures
        out is Ok <==> kdf_output(
            encode_utf8(new_password@),
            salt@,
            old(store)@.costs.memory,
            old(store)@.costs.iterations,
            old(store)@.costs.parallelism,
        ) is Some,
        out is Ok ==> {
            &&& final(store)@.vault_id == old(store)@.vault_id
            &&& final(store)@.costs == old(store)@.costs
            &&& final(store)@.recovery_slot == old(store)@.recovery_slot
            &&& final(store)@.password_slot.salt == salt@
            &&& final(store)@.password_slot.nonce == nonce@
            &&& slot_holds(
                final(store)@.password_slot,
                final(store)@.costs,
                encode_utf8(new_password@),
                master_key@,
            )
            &&& final(store)@.password_unlocks(new_password@) == Ok::<Seq<u8>, VaultError>(master_key@)
        },
        out matches Err(e) ==> e == VaultError::KdfFailure && final(store)@ == old(store)@,
{
    let slot = match seal_slot(
        master_key,
        new_password,
        salt,
        nonce,
        store.kdf_memory,
        store.kdf_iterations,
        store.kdf_parallelism,
    ) {
        Ok(s) => s,
        Err(e) => { return Err(e); },
    };
    store.password_nonce = crate::codec::get_bytes(slot.nonce.as_slice(), 0, 12);
    assert(store.password_nonce@ =~= slot.nonce@);
    store.password_salt = slot.salt;
    store.encrypted_master_key_pass = slot.sealed;
    assert(store@.password_slot == slot@);
    Ok(())
}

/// Changes the password of the keychain. The caller holds the master key
/// already. Only the password slot is rewritten, with a salt and a nonce
/// of its own.
pub fn change_password(store: &mut KeychainStore, master_key: &MasterKey, new_password: &str) -> (out: Result<
    (),
    VaultError,
>)
    ensures
        out is Ok ==> {
            &&& final(store)@.vault_id == old(store)@.vault_id
            &&& final(store)@.costs == old(store)@.costs
            &&& final(store)@.recovery_slot == old(store)@.recovery_slot
            &&& is_salt_text(final(store)@.password_slot.salt)
            &&& final(store)@.password_slot.nonce.len() == 12
            &&& final(store)@.password_unlocks(new_password@) == Ok::<Seq<u8>, VaultError>(master_key@)
        },
        out matches Err(e) ==> (e == VaultError::KdfFailure || e == VaultError::IOFailure) && final(store)@ == old(store)@,
{
    let (salt, nonce) = match draw_slot_material() {
        Ok(m) => m,
        Err(e) => { return Err(e); },
    };
    change_password_with(store, master_key, new_password, salt, nonce)
}

/// Opens the recovery slot with `recovery_code` and, where that gives the
/// master key, rewrites the password slot under `new_password` with the
/// given salt and nonce. The recovery slot is left as it is, so the same
/// code works again. On failure nothing changes.
pub fn recover_with(
    store: &mut KeychainStore,
    recovery_code: &str,
    new_password: &str,
    salt: String,
    nonce: [u8; 12],
) -> (out: Result<MasterKey, VaultError>)
    ensures
        match old(store)@.recovery_unlocks(recovery_code@) {
            Err(e) => out == Err::<MasterKey, VaultError>(e) && final(store)@ == old(store)@,
            Ok(key) => match out {
                Ok(k) => {
                    &&& k@ == key
                    &&& final(store)@.vault_id == old(store)@.vault_id
                    &&& final(store)@.costs == old(store)@.costs
                    &&& final(store)@.recovery_slot == old(store)@.recovery_slot
                    &&& final(store)@.password_slot.salt == salt@
                    &&& final(store)@.password_slot.nonce == nonce@
                    &&& final(store)@.recovery_unlocks(recovery_code@) == Ok::<Seq<u8>, VaultError>(key)
                    &&& final(store)@.password_unlocks(new_password@) == Ok::<Seq<u8>, VaultError>(key)
                },
                Err(e) => e == VaultError::KdfFailure && final(store)@ == old(store)@,
            },
        },
        out is Ok <==> (old(store)@.recovery_unlocks(recovery_code@) is Ok && kdf_output(
            encode_utf8(new_password@),
            salt@,
            old(store)@.costs.memory,
            old(store)@.costs.iterations,
            old(store)@.costs.parallelism,
        ) is Some),
{
    let key = match open_slot(
        store.recovery_salt.as_str(),
        &store.recovery_nonce,
        &store.encrypted_master_key_recovery,
        store.kdf_memory,
        store.kdf_iterations,
        store.kdf_parallelism,
        recovery_code,
    ) {
        Ok(k) => k,
        Err(e) => { return Err(e); },
    };
    match change_password_with(store, &key, new_password, salt, nonce) {
        Ok(()) => Ok(key),
        Err(e) => {
            let mut key = key;
            key.erase();
            Err(e)
        },
    }
}

/// Recovers the vault with the recovery code and sets a new password,
/// under a salt and a nonce of its own.
pub fn recover_with_code(store: &mut KeychainStore, recovery_code: &str, new_password: &str) -> (out: Result<
    MasterKey,
    VaultError,
>)
    ensures
        out matches Ok(k) ==> {
            &&& old(store)@.recovery_unlocks(recovery_code@) == Ok::<Seq<u8>, VaultError>(k@)
            &&& final(store)@.vault_id == old(store)@.vault_id
            &&& final(store)@.costs == old(store)@.costs
            &&& final(store)@.recovery_slot == old(store)@.recovery_slot
            &&& is_salt_text(final(store)@.password_slot.salt)
            &&& final(store)@.password_slot.nonce.len() == 12
            &&& final(store)@.recovery_unlocks(recovery_code@) == Ok::<Seq<u8>, VaultError>(k@)
            &&& final(store)@.password_unlocks(new_password@) == Ok::<Seq<u8>, VaultError>(k@)
        },
        out matches Err(e) ==> {
            &&& final(store)@ == old(store)@
            &&& old(store)@.recovery_unlocks(recovery_code@) matches Err(cause) ==> e == cause
            &&& old(store)@.recovery_unlocks(recovery_code@) is Ok ==> e == VaultError::KdfFailure || e
                == VaultError::IOFailure
        },
{
    let (salt, nonce) = match draw_slot_material() {
        Ok(m) => m,
        Err(_) => {
            // the code is still checked, so that a wrong one is reported as such
            return match open_slot(
                store.recovery_salt.as_str(),
                &store.recovery_nonce,
                &store.encrypted_master_key_recovery,
                store.kdf_memory,
                store.kdf_iterations,
                store.kdf_parallelism,
                recovery_code,
            ) {
                Ok(mut k) => {
                    k.erase();
                    Err(VaultError::IOFailure)
                },
                Err(e) => Err(e),
            };
        },
    };
    recover_with(store, recovery_code, new_password, salt, nonce)
}

/// Rewrites the recovery slot to hold `master_key` under the code that
/// `groups` spell, with the given salt and nonce. The password slot is
/// left as it is. On failure nothing changes.
pub fn reset_recovery_with(
    store: &mut KeychainStore,
    master_key: &MasterKey,
    groups: [u16; 4],
    salt: String,
    nonce: [u8; 12],
) -> (out: Result<String, VaultError>)
    ensures
        out is Ok <==> kdf_output(
            encode_utf8(recovery_code_text(groups@)),
            salt@,
            old(store)@.costs.memory,
            old(store)@.costs.iterations,
            old(store)@.costs.parallelism,
        ) is Some,
        out matches Ok(code) ==> {
            &&& code@ == recovery_code_text(groups@)
            &&& final(store)@.vault_id == old(store)@.vault_id
            &&& final(store)@.costs == old(store)@.costs
            &&& final(store)@.password_slot == old(store)@.password_slot
            &&& final(store)@.recovery_slot.salt == salt@
            &&& final(store)@.recovery_slot.nonce == nonce@
            &&& slot_holds(final(store)@.recovery_slot, final(store)@.costs, encode_utf8(code@), master_key@)
            &&& final(store)@.recovery_unlocks(code@) == Ok::<Seq<u8>, VaultError>(master_key@)
        },
        out matches Err(e) ==> e == VaultError::KdfFailure && final(store)@ == old(store)@,
{
    let code = format_recovery_code(&groups);
    let slot = match seal_slot(
        master_key,
        code.as_str(),
        salt,
        nonce,
        store.kdf_memory,
        store.kdf_iterations,
        store.kdf_parallelism,
    ) {
        Ok(s) => s,
        Err(e) => { return Err(e); },
    };
    store.recovery_nonce = crate::codec::get_bytes(slot.nonce.as_slice(), 0, 12);
    assert(store.recovery_nonce@ =~= slot.nonce@);
    store.recovery_salt = slot.salt;
    store.encrypted_master_key_recovery = slot.sealed;
    assert(store@.recovery_slot == slot@);
    Ok(code)
}

/// Replaces the recovery code with a fresh one. The caller holds the
/// master key already. Only the recovery slot is rewritten, with a salt
/// and a nonce of its own.
pub fn reset_recovery_code(store: &mut KeychainStore, master_key: &MasterKey) -> (out: Result<String, VaultError>)
    ensures
        out matches Ok(code) ==> {
            &&& crate::recovery::is_recovery_code(code@)
            &&& final(store)@.vault_id == old(store)@.vault_id
            &&& final(store)@.costs == old(store)@.costs
            &&& final(store)@.password_slot == old(store)@.password_slot
            &&& is_salt_text(final(store)@.recovery_slot.salt)
            &&& final(store)@.recovery_slot.nonce.len() == 12
            &&& final(store)@.recovery_unlocks(code@) == Ok::<Seq<u8>, VaultError>(master_key@)
        },
        out matches Err(e) ==> (e == VaultError::KdfFailure || e == VaultError::IOFailure) && final(store)@ == old(store)@,
{
    let (salt, nonce) = match draw_slot_material() {
        Ok(m) => m,
        Err(e) => { return Err(e); },
    };
    let groups = match draw_recovery_groups() {
        Ok(g) => g,
        Err(e) => { return Err(e); },
    };
    proof {
        crate::recovery::lemma_formatted_code_is_valid(groups@);
    }
    reset_recovery_with(store, master_key, groups, salt, nonce)
}

/// Whether a keychain is there, given what looking for its file gave:
/// nothing where the place to look could not be determined.
pub fn keychain_exists(lookup: Option<bool>) -> (exists: bool)
    ensures
        exists == (lookup == Some(true)),
{
    match lookup {
        Some(found) => found,
        None => false,
    }
}

} // verus!
