//! Sealing a payload into a whole-payload envelope, and opening one.

use vstd::prelude::*;
use vstd::utf8::encode_utf8;
use crate::codec::{bytes_equal, get_array};
use crate::container::{
    lemma_payload_round_trip, payload_bytes, read_payload, ContainerView, EncryptedFileContainer,
    EncryptedFileHeader, HeaderView, InnerPayload, PayloadView, CONTAINER_VERSION,
};
use crate::error::VaultError;
use crate::keys::{derive_wrapping_key, opt_view, wrapping_key, MasterKey};
use crate::primitives::aead::{aead_opened, aead_sealed, open, seal, sealable, seals};
use crate::primitives::compress::{compress_data, compresses, decompress_data, zstd_compressed, zstd_expanded};
use crate::primitives::hash::{sha256, sha256_raw};
use crate::primitives::random::{keystream, os_random, seeded_bytes};
use crate::primitives::wipe::{wipe, wipe_vec};

verus! {

/// The largest payload, in bytes, that a whole-payload envelope takes.
pub const MAX_FILE_SIZE: u64 = 0x1_0000_0000;

/// The constant that the validation tag holds: `QRE_VALID`.
pub open spec fn validation_magic() -> Seq<u8> {
    seq![0x51u8, 0x52, 0x45, 0x5f, 0x56, 0x41, 0x4c, 0x49, 0x44]
}

/// The random values that go into one envelope.
pub struct SealingMaterial {
    pub file_key: [u8; 32],
    pub body_nonce: [u8; 12],
    pub key_wrapping_nonce: [u8; 12],
    pub validation_nonce: [u8; 12],
}

/// The mathematical value of a [`SealingMaterial`].
pub struct MaterialView {
    pub file_key: Seq<u8>,
    pub body_nonce: Seq<u8>,
    pub key_wrapping_nonce: Seq<u8>,
    pub validation_nonce: Seq<u8>,
}

impl View for SealingMaterial {
    type V = MaterialView;

    open spec fn view(&self) -> MaterialView {
        MaterialView {
            file_key: self.file_key@,
            body_nonce: self.body_nonce@,
            key_wrapping_nonce: self.key_wrapping_nonce@,
            validation_nonce: self.validation_nonce@,
        }
    }
}

/// What unwrapping a file key gives: the validation tag must open under
/// the wrapping key and hold the constant; then the wrapped key must open
/// and be 32 bytes long.
pub open spec fn unwrapped_key(
    wk: Seq<u8>,
    validation_nonce: Seq<u8>,
    encrypted_validation_tag: Seq<u8>,
    key_wrapping_nonce: Seq<u8>,
    encrypted_file_key: Seq<u8>,
) -> Result<Seq<u8>, VaultError> {
    match aead_opened(wk, validation_nonce, Seq::empty(), encrypted_validation_tag) {
        None => Err(VaultError::BadCredential),
        Some(tag) => if tag != validation_magic() {
            Err(VaultError::ValidationMismatch)
        } else {
            match aead_opened(wk, key_wrapping_nonce, Seq::empty(), encrypted_file_key) {
                None => Err(VaultError::BadCredential),
                Some(fk) => if fk.len() != 32 {
                    Err(VaultError::Malformed)
                } else {
                    Ok(fk)
                },
            }
        },
    }
}

/// First stage of opening: the file key is unwrapped from the header.
pub open spec fn unwrapped_file_key(wk: Seq<u8>, h: HeaderView) -> Result<Seq<u8>, VaultError> {
    unwrapped_key(
        wk,
        h.validation_nonce,
        h.encrypted_validation_tag,
        h.key_wrapping_nonce,
        h.encrypted_file_key,
    )
}

/// That a validation tag and a wrapped key were sealed under the wrapping
/// key of `master_key` and `keyfile`, for the file key `file_key`.
pub open spec fn key_wrapped(
    master_key: Seq<u8>,
    keyfile: Option<Seq<u8>>,
    file_key: Seq<u8>,
    validation_nonce: Seq<u8>,
    encrypted_validation_tag: Seq<u8>,
    key_wrapping_nonce: Seq<u8>,
    encrypted_file_key: Seq<u8>,
) -> bool {
    let wk = wrapping_key(master_key, keyfile);
    &&& file_key.len() == 32
    &&& seals(wk, validation_nonce, Seq::empty(), validation_magic(), encrypted_validation_tag)
    &&& seals(wk, key_wrapping_nonce, Seq::empty(), file_key, encrypted_file_key)
}

/// A key that was wrapped unwraps to itself under the same master key and
/// keyfile.
pub proof fn lemma_wrapped_key_unwraps(
    master_key: Seq<u8>,
    keyfile: Option<Seq<u8>>,
    file_key: Seq<u8>,
    validation_nonce: Seq<u8>,
    encrypted_validation_tag: Seq<u8>,
    key_wrapping_nonce: Seq<u8>,
    encrypted_file_key: Seq<u8>,
)
    requires
        key_wrapped(
            master_key,
            keyfile,
            file_key,
            validation_nonce,
            encrypted_validation_tag,
            key_wrapping_nonce,
            encrypted_file_key,
        ),
    ensures
        unwrapped_key(
            wrapping_key(master_key, keyfile),
            validation_nonce,
            encrypted_validation_tag,
            key_wrapping_nonce,
            encrypted_file_key,
        ) == Ok::<Seq<u8>, VaultError>(file_key),
{
}

/// Second stage of opening: the body must open under the file key, hold a
/// payload, and the payload's content must expand.
pub open spec fn opened_body(fk: Seq<u8>, body_nonce: Seq<u8>, ciphertext: Seq<u8>) -> Result<PayloadView, VaultError> {
    match aead_opened(fk, body_nonce, Seq::empty(), ciphertext) {
        None => Err(VaultError::IntegrityFailure),
        Some(blob) => match read_payload(blob) {
            None => Err(VaultError::Malformed),
            Some(p) => match zstd_expanded(p.content) {
                None => Err(VaultError::Malformed),
                Some(data) => Ok(PayloadView { filename: p.filename, content: data }),
            },
        },
    }
}

/// Last stage of opening: where the header stores a hash, the content
/// must hash to it.
pub open spec fn hash_checked(original_hash: Option<Seq<u8>>, p: PayloadView) -> Result<PayloadView, VaultError> {
    match original_hash {
        Some(h) => if sha256(p.content) == h {
            Ok(p)
        } else {
            Err(VaultError::IntegrityFailure)
        },
        None => Ok(p),
    }
}

/// What opening an envelope gives, stage by stage: the payload, or the
/// first failure met.
pub open spec fn v4_decrypted(master_key: Seq<u8>, keyfile: Option<Seq<u8>>, c: ContainerView) -> Result<PayloadView, VaultError> {
    if c.header.uses_keyfile && keyfile is None {
        Err(VaultError::KeyfileRequired)
    } else {
        match unwrapped_file_key(wrapping_key(master_key, keyfile), c.header) {
            Err(e) => Err(e),
            Ok(fk) => match opened_body(fk, c.header.body_nonce, c.ciphertext) {
                Err(e) => Err(e),
                Ok(p) => hash_checked(c.header.original_hash, p),
            },
        }
    }
}

/// The envelope that sealing gives once the compressed frame and the
/// random material are fixed.
pub open spec fn v4_assembled(
    master_key: Seq<u8>,
    keyfile: Option<Seq<u8>>,
    filename: Seq<char>,
    data: Seq<u8>,
    frame: Seq<u8>,
    m: MaterialView,
) -> ContainerView {
    let wk = wrapping_key(master_key, keyfile);
    ContainerView {
        version: CONTAINER_VERSION,
        header: HeaderView {
            validation_nonce: m.validation_nonce,
            encrypted_validation_tag: aead_sealed(wk, m.validation_nonce, Seq::empty(), validation_magic()),
            key_wrapping_nonce: m.key_wrapping_nonce,
            encrypted_file_key: aead_sealed(wk, m.key_wrapping_nonce, Seq::empty(), m.file_key),
            body_nonce: m.body_nonce,
            uses_keyfile: keyfile is Some,
            original_hash: Some(sha256(data)),
        },
        ciphertext: aead_sealed(
            m.file_key,
            m.body_nonce,
            Seq::empty(),
            payload_bytes(PayloadView { filename, content: frame }),
        ),
    }
}

/// That `c` is what sealing `data` gives: it is the assembled envelope,
/// and each of its three sealed parts, and its compressed frame, came out
/// of the cipher and the compressor for exactly these inputs.
#[verifier::opaque]
pub open spec fn sealed_as_v4(
    master_key: Seq<u8>,
    keyfile: Option<Seq<u8>>,
    filename: Seq<char>,
    data: Seq<u8>,
    level: i32,
    m: MaterialView,
    c: ContainerView,
) -> bool {
    let wk = wrapping_key(master_key, keyfile);
    &&& m.file_key.len() == 32
    &&& encode_utf8(filename).len() <= u64::MAX
    &&& zstd_compressed(data, level) matches Some(frame)
    &&& frame.len() <= u64::MAX
    &&& compresses(data, level, frame)
    &&& c == v4_assembled(master_key, keyfile, filename, data, frame, m)
    &&& seals(wk, m.validation_nonce, Seq::empty(), validation_magic(), c.header.encrypted_validation_tag)
    &&& seals(wk, m.key_wrapping_nonce, Seq::empty(), m.file_key, c.header.encrypted_file_key)
    &&& seals(
        m.file_key,
        m.body_nonce,
        Seq::empty(),
        payload_bytes(PayloadView { filename, content: frame }),
        c.ciphertext,
    )
}

/// Opening undoes sealing: an envelope that sealing gave for a payload,
/// at any compression level, opens under the same master key and keyfile
/// to that payload, name and bytes.
pub proof fn lemma_v4_round_trip(
    master_key: Seq<u8>,
    keyfile: Option<Seq<u8>>,
    filename: Seq<char>,
    data: Seq<u8>,
    level: i32,
    m: MaterialView,
    c: ContainerView,
)
    requires
        sealed_as_v4(master_key, keyfile, filename, data, level, m, c),
    ensures
        v4_decrypted(master_key, keyfile, c) == Ok::<PayloadView, VaultError>(
            PayloadView { filename, content: data },
        ),
{
    reveal(sealed_as_v4);
    let frame = zstd_compressed(data, level)->Some_0;
    let inner = PayloadView { filename, content: frame };
    lemma_payload_round_trip(inner, Seq::empty());
    assert(payload_bytes(inner) + Seq::<u8>::empty() =~= payload_bytes(inner));
    let wk = wrapping_key(master_key, keyfile);
    assert(unwrapped_file_key(wk, c.header) == Ok::<Seq<u8>, VaultError>(m.file_key));
    assert(opened_body(m.file_key, c.header.body_nonce, c.ciphertext) == Ok::<PayloadView, VaultError>(
        PayloadView { filename, content: data },
    ));
}

/// An envelope that sealing gave does not open without the keyfile it was
/// sealed with.
pub proof fn lemma_v4_keyfile_required(
    master_key: Seq<u8>,
    keyfile: Seq<u8>,
    filename: Seq<char>,
    data: Seq<u8>,
    level: i32,
    m: MaterialView,
    c: ContainerView,
)
    requires
        sealed_as_v4(master_key, Some(keyfile), filename, data, level, m, c),
    ensures
        v4_decrypted(master_key, None, c) == Err::<PayloadView, VaultError>(VaultError::KeyfileRequired),
{
    reveal(sealed_as_v4);
}

/// The parts of a sealed envelope that do not depend on the cipher: its
/// version, its nonces, its keyfile flag and its stored hash.
pub proof fn lemma_sealed_shape(
    master_key: Seq<u8>,
    keyfile: Option<Seq<u8>>,
    filename: Seq<char>,
    data: Seq<u8>,
    level: i32,
    m: MaterialView,
    c: ContainerView,
)
    requires
        sealed_as_v4(master_key, keyfile, filename, data, level, m, c),
    ensures
        c.version == CONTAINER_VERSION,
        c.header.validation_nonce == m.validation_nonce,
        c.header.key_wrapping_nonce == m.key_wrapping_nonce,
        c.header.body_nonce == m.body_nonce,
        c.header.uses_keyfile == keyfile is Some,
        c.header.original_hash == Some(sha256(data)),
{
    reveal(sealed_as_v4);
}

/// A payload that comes out of an envelope with a stored hash hashes to
/// it: whatever was done to the envelope, opening never hands out
/// content that the stored hash does not vouch for.
pub proof fn lemma_v4_opened_content_matches_hash(
    master_key: Seq<u8>,
    keyfile: Option<Seq<u8>>,
    c: ContainerView,
)
    ensures
        v4_decrypted(master_key, keyfile, c) matches Ok(p) ==> (c.header.original_hash matches Some(h)
            ==> sha256(p.content) == h),
{
}

/// Opening never succeeds in silence: an envelope opens only if its
/// validation tag, its wrapped file key and its body each authenticate
/// under the keys, the tag holds the constant, and the keyfile it was
/// sealed with, if any, was supplied. Every failure is one of five
/// kinds.
pub proof fn lemma_v4_success_means_authentic(
    master_key: Seq<u8>,
    keyfile: Option<Seq<u8>>,
    c: ContainerView,
)
    ensures
        v4_decrypted(master_key, keyfile, c) is Ok ==> {
            let wk = wrapping_key(master_key, keyfile);
            &&& c.header.uses_keyfile ==> keyfile is Some
            &&& aead_opened(wk, c.header.validation_nonce, Seq::empty(), c.header.encrypted_validation_tag)
                == Some(validation_magic())
            &&& aead_opened(wk, c.header.key_wrapping_nonce, Seq::empty(), c.header.encrypted_file_key)
                matches Some(fk)
            &&& aead_opened(fk, c.header.body_nonce, Seq::empty(), c.ciphertext) is Some
        },
        v4_decrypted(master_key, keyfile, c) matches Err(e) ==> e == VaultError::KeyfileRequired || e
            == VaultError::BadCredential || e == VaultError::ValidationMismatch || e
            == VaultError::IntegrityFailure || e == VaultError::Malformed,
{
}

/// An envelope whose sealed parts the cipher rejects does not open: a
/// validation tag or a wrapped key that does not authenticate is a bad
/// credential, a body that does not authenticate an integrity failure.
pub proof fn lemma_v4_rejected_parts(master_key: Seq<u8>, keyfile: Option<Seq<u8>>, c: ContainerView)
    requires
        c.header.uses_keyfile ==> keyfile is Some,
    ensures
        ({
            let wk = wrapping_key(master_key, keyfile);
            let tag = aead_opened(wk, c.header.validation_nonce, Seq::empty(), c.header.encrypted_validation_tag);
            let key = aead_opened(wk, c.header.key_wrapping_nonce, Seq::empty(), c.header.encrypted_file_key);
            &&& tag is None ==> v4_decrypted(master_key, keyfile, c) == Err::<PayloadView, VaultError>(
                VaultError::BadCredential,
            )
            &&& tag == Some(validation_magic()) && key is None ==> v4_decrypted(master_key, keyfile, c)
                == Err::<PayloadView, VaultError>(VaultError::BadCredential)
            &&& (tag == Some(validation_magic()) && key is Some && key->Some_0.len() == 32 && aead_opened(
                key->Some_0,
                c.header.body_nonce,
                Seq::empty(),
                c.ciphertext,
            ) is None) ==> v4_decrypted(master_key, keyfile, c) == Err::<PayloadView, VaultError>(
                VaultError::IntegrityFailure,
            )
        }),
{
}

/// Changing the stored hash of an envelope that opens gives an integrity
/// failure.
pub proof fn lemma_v4_hash_tamper_detected(
    master_key: Seq<u8>,
    keyfile: Option<Seq<u8>>,
    c: ContainerView,
    forged: Seq<u8>,
)
    requires
        v4_decrypted(master_key, keyfile, c) is Ok,
        c.header.original_hash matches Some(h) && h != forged,
    ensures
        v4_decrypted(
            master_key,
            keyfile,
            ContainerView {
                header: HeaderView { original_hash: Some(forged), ..c.header },
                ..c
            },
        ) == Err::<PayloadView, VaultError>(VaultError::IntegrityFailure),
{
}

/// The material that a seed gives: the three nonces are the first 36
/// bytes of the seed's keystream, body nonce first; the file key never
/// comes from the seed.
pub open spec fn seeded_material(seed: Seq<u8>, file_key: Seq<u8>) -> MaterialView {
    let stream = keystream(seed, 0, 36);
    MaterialView {
        file_key,
        body_nonce: stream.subrange(0, 12),
        key_wrapping_nonce: stream.subrange(12, 24),
        validation_nonce: stream.subrange(24, 36),
    }
}

/// Sealing is a function of its inputs: the same payload, keys, level and
/// random material give the same envelope, byte for byte.
pub proof fn lemma_sealing_is_deterministic(
    master_key: Seq<u8>,
    keyfile: Option<Seq<u8>>,
    filename: Seq<char>,
    data: Seq<u8>,
    level: i32,
    m: MaterialView,
    first: ContainerView,
    second: ContainerView,
)
    requires
        sealed_as_v4(master_key, keyfile, filename, data, level, m, first),
        sealed_as_v4(master_key, keyfile, filename, data, level, m, second),
    ensures
        first == second,
        crate::container::container_bytes(first) == crate::container::container_bytes(second),
{
    reveal(sealed_as_v4);
}

/// Derives the nonces of one envelope from a seed.
pub fn material_from_seed(seed: &[u8; 32], file_key: [u8; 32]) -> (m: SealingMaterial)
    ensures
        m@ == seeded_material(seed@, file_key@),
{
    let stream = seeded_bytes(seed, 0, 36);
    SealingMaterial {
        file_key,
        body_nonce: get_array::<12>(stream.as_slice(), 0),
        key_wrapping_nonce: get_array::<12>(stream.as_slice(), 12),
        validation_nonce: get_array::<12>(stream.as_slice(), 24),
    }
}

/// Draws the random material for one envelope: the file key always from
/// the operating system, the nonces from the seed where there is one.
pub fn draw_material(entropy_seed: Option<[u8; 32]>) -> (out: Result<SealingMaterial, VaultError>)
    ensures
        out matches Err(e) ==> e == VaultError::IOFailure,
        out matches Ok(m) ==> (entropy_seed matches Some(seed) ==> m@ == seeded_material(
            seed@,
            m@.file_key,
        )),
{
    let file_key = match os_random::<32>() {
        Some(k) => k,
        None => { return Err(VaultError::IOFailure); },
    };
    match entropy_seed {
        Some(seed) => Ok(material_from_seed(&seed, file_key)),
        None => {
            let body_nonce = match os_random::<12>() {
                Some(n) => n,
                None => { return Err(VaultError::IOFailure); },
            };
            let key_wrapping_nonce = match os_random::<12>() {
                Some(n) => n,
                None => { return Err(VaultError::IOFailure); },
            };
            let validation_nonce = match os_random::<12>() {
                Some(n) => n,
                None => { return Err(VaultError::IOFailure); },
            };
            Ok(SealingMaterial { file_key, body_nonce, key_wrapping_nonce, validation_nonce })
        },
    }
}

/// The length of the serialized payload that is sealed as the body.
pub open spec fn body_len(filename: Seq<char>, frame: Seq<u8>) -> int {
    payload_bytes(PayloadView { filename, content: frame }).len() as int
}

/// When sealing succeeds: the payload is within the size limit, the
/// compressor accepts it, and the serialized body is within what the
/// cipher takes.
pub open spec fn can_seal(filename: Seq<char>, data: Seq<u8>, level: i32) -> bool {
    &&& data.len() <= MAX_FILE_SIZE
    &&& zstd_compressed(data, level) matches Some(frame)
    &&& sealable(body_len(filename, frame), 0)
}

/// Seals a payload with the given random material.
pub fn seal_container(
    master_key: &MasterKey,
    keyfile: Option<&[u8]>,
    filename: &str,
    file_bytes: &[u8],
    compression_level: i32,
    material: &SealingMaterial,
) -> (out: Result<EncryptedFileContainer, VaultError>)
    ensures
        out is Ok <==> can_seal(filename@, file_bytes@, compression_level),
        out matches Ok(c) ==> c@.wf() && sealed_as_v4(
            master_key@,
            opt_view(keyfile),
            filename@,
            file_bytes@,
            compression_level,
            material@,
            c@,
        ) && v4_decrypted(master_key@, opt_view(keyfile), c@) == Ok::<PayloadView, VaultError>(
            PayloadView { filename: filename@, content: file_bytes@ },
        ),
        out matches Err(e) ==> e == (if file_bytes@.len() > MAX_FILE_SIZE {
            VaultError::SizeLimitExceeded
        } else if zstd_compressed(file_bytes@, compression_level) is None {
            VaultError::CompressionFailure
        } else {
            VaultError::SizeLimitExceeded
        }),
{
    if file_bytes.len() as u64 > MAX_FILE_SIZE {
        return Err(VaultError::SizeLimitExceeded);
    }
    let original_hash = sha256_raw(file_bytes);
    let frame = match compress_data(file_bytes, compression_level) {
        Ok(f) => f,
        Err(_) => { return Err(VaultError::CompressionFailure); },
    };
    let ghost frame_view = frame@;
    let payload = InnerPayload { filename: filename.to_owned(), content: frame };
    let mut blob = payload.to_bytes();
    let empty: Vec<u8> = Vec::new();
    let ciphertext = match seal(&material.file_key, &material.body_nonce, empty.as_slice(), blob.as_slice()) {
        Ok(c) => c,
        Err(_) => {
            wipe_vec(&mut blob);
            return Err(VaultError::SizeLimitExceeded);
        },
    };
    wipe_vec(&mut blob);
    let (encrypted_validation_tag, encrypted_file_key) = wrap_file_key(
        master_key,
        keyfile,
        &material.file_key,
        &material.validation_nonce,
        &material.key_wrapping_nonce,
    );
    let container = EncryptedFileContainer {
        version: CONTAINER_VERSION,
        header: EncryptedFileHeader {
            validation_nonce: material.validation_nonce,
            encrypted_validation_tag,
            key_wrapping_nonce: material.key_wrapping_nonce,
            encrypted_file_key,
            body_nonce: material.body_nonce,
            uses_keyfile: keyfile.is_some(),
            original_hash: Some(original_hash),
        },
        ciphertext,
    };
    proof {
        reveal(sealed_as_v4);
        assert(empty@ =~= Seq::<u8>::empty());
        assert(container@ == v4_assembled(
            master_key@,
            opt_view(keyfile),
            filename@,
            file_bytes@,
            frame_view,
            material@,
        ));
        lemma_v4_round_trip(
            master_key@,
            opt_view(keyfile),
            filename@,
            file_bytes@,
            compression_level,
            material@,
            container@,
        );
    }
    Ok(container)
}

/// Seals a payload into a whole-payload envelope. The file key comes from
/// the operating system; the nonces come from `entropy_seed` where one is
/// given, so that the same seed gives the same nonces.
pub fn encrypt_file_with_master_key(
    master_key: &MasterKey,
    keyfile_bytes: Option<&[u8]>,
    filename: &str,
    file_bytes: &[u8],
    entropy_seed: Option<[u8; 32]>,
    compression_level: i32,
) -> (out: Result<EncryptedFileContainer, VaultError>)
    ensures
        out matches Ok(c) ==> {
            &&& can_seal(filename@, file_bytes@, compression_level)
            &&& c@.wf()
            &&& c@.version == CONTAINER_VERSION
            &&& c@.header.uses_keyfile == keyfile_bytes is Some
            &&& c@.header.original_hash == Some(sha256(file_bytes@))
            &&& exists|m: MaterialView| #[trigger]
                sealed_as_v4(
                    master_key@,
                    opt_view(keyfile_bytes),
                    filename@,
                    file_bytes@,
                    compression_level,
                    m,
                    c@,
                )
            &&& v4_decrypted(master_key@, opt_view(keyfile_bytes), c@) == Ok::<PayloadView, VaultError>(
                PayloadView { filename: filename@, content: file_bytes@ },
            )
            &&& entropy_seed matches Some(seed) ==> {
                &&& c@.header.body_nonce == keystream(seed@, 0, 36).subrange(0, 12)
                &&& c@.header.key_wrapping_nonce == keystream(seed@, 0, 36).subrange(12, 24)
                &&& c@.header.validation_nonce == keystream(seed@, 0, 36).subrange(24, 36)
            }
        },
        out matches Err(e) ==> {
            ||| e == VaultError::IOFailure
            ||| !can_seal(filename@, file_bytes@, compression_level) && e == (if file_bytes@.len()
                > MAX_FILE_SIZE {
                VaultError::SizeLimitExceeded
            } else if zstd_compressed(file_bytes@, compression_level) is None {
                VaultError::CompressionFailure
            } else {
                VaultError::SizeLimitExceeded
            })
        },
{
    let mut material = match draw_material(entropy_seed) {
        Ok(m) => m,
        Err(e) => { return Err(e); },
    };
    let out = seal_container(master_key, keyfile_bytes, filename, file_bytes, compression_level, &material);
    proof {
        if out is Ok {
            lemma_sealed_shape(
                master_key@,
                opt_view(keyfile_bytes),
                filename@,
                file_bytes@,
                compression_level,
                material@,
                out->Ok_0@,
            );
        }
    }
    wipe(&mut material.file_key);
    out
}

/// Opens a whole-payload envelope.
pub fn decrypt_file_with_master_key(
    master_key: &MasterKey,
    keyfile_bytes: Option<&[u8]>,
    container: &EncryptedFileContainer,
) -> (out: Result<InnerPayload, VaultError>)
    ensures
        v4_decrypted(master_key@, opt_view(keyfile_bytes), container@) == (match out {
            Ok(p) => Ok(p@),
            Err(e) => Err(e),
        }),
{
    let h = &container.header;
    if h.uses_keyfile && keyfile_bytes.is_none() {
        return Err(VaultError::KeyfileRequired);
    }
    let empty: Vec<u8> = Vec::new();
    assert(empty@ =~= Seq::<u8>::empty());
    let mut file_key = match unwrap_file_key(
        master_key,
        keyfile_bytes,
        &h.validation_nonce,
        h.encrypted_validation_tag.as_slice(),
        &h.key_wrapping_nonce,
        h.encrypted_file_key.as_slice(),
    ) {
        Ok(k) => k,
        Err(e) => { return Err(e); },
    };
    let opened = open(&file_key, &h.body_nonce, empty.as_slice(), container.ciphertext.as_slice());
    wipe(&mut file_key);
    let mut blob = match opened {
        None => { return Err(VaultError::IntegrityFailure); },
        Some(b) => b,
    };
    let parsed = InnerPayload::from_bytes(blob.as_slice());
    wipe_vec(&mut blob);
    let inner = match parsed {
        None => { return Err(VaultError::Malformed); },
        Some(p) => p,
    };
    let content = match decompress_data(inner.content.as_slice()) {
        Err(_) => { return Err(VaultError::Malformed); },
        Ok(d) => d,
    };
    match &h.original_hash {
        Some(expected) => {
            let actual = sha256_raw(content.as_slice());
            if !bytes_equal(actual.as_slice(), expected.as_slice()) {
                return Err(VaultError::IntegrityFailure);
            }
        },
        None => {},
    }
    Ok(InnerPayload { filename: inner.filename, content })
}

/// Seals the validation tag and wraps `file_key` under the wrapping key
/// of `master_key` and `keyfile`. Gives the sealed tag and the wrapped
/// key.
pub fn wrap_file_key(
    master_key: &MasterKey,
    keyfile: Option<&[u8]>,
    file_key: &[u8; 32],
    validation_nonce: &[u8; 12],
    key_wrapping_nonce: &[u8; 12],
) -> (out: (Vec<u8>, Vec<u8>))
    ensures
        key_wrapped(
            master_key@,
            opt_view(keyfile),
            file_key@,
            validation_nonce@,
            out.0@,
            key_wrapping_nonce@,
            out.1@,
        ),
        out.0@ == aead_sealed(
            wrapping_key(master_key@, opt_view(keyfile)),
            validation_nonce@,
            Seq::empty(),
            validation_magic(),
        ),
        out.1@ == aead_sealed(
            wrapping_key(master_key@, opt_view(keyfile)),
            key_wrapping_nonce@,
            Seq::empty(),
            file_key@,
        ),
{
    let empty: Vec<u8> = Vec::new();
    assert(empty@ =~= Seq::<u8>::empty());
    let mut wk = derive_wrapping_key(master_key, keyfile);
    let magic: [u8; 9] = [0x51, 0x52, 0x45, 0x5f, 0x56, 0x41, 0x4c, 0x49, 0x44];
    assert(magic@ =~= validation_magic());
    let sealed_tag = seal(&wk, validation_nonce, empty.as_slice(), magic.as_slice());
    let sealed_key = seal(&wk, key_wrapping_nonce, empty.as_slice(), file_key.as_slice());
    wipe(&mut wk);
    let tag = match sealed_tag {
        Ok(t) => t,
        Err(_) => Vec::new(),
    };
    let key = match sealed_key {
        Ok(k) => k,
        Err(_) => Vec::new(),
    };
    (tag, key)
}

/// Checks the validation tag and unwraps the file key under the wrapping
/// key of `master_key` and `keyfile`.
pub fn unwrap_file_key(
    master_key: &MasterKey,
    keyfile: Option<&[u8]>,
    validation_nonce: &[u8; 12],
    encrypted_validation_tag: &[u8],
    key_wrapping_nonce: &[u8; 12],
    encrypted_file_key: &[u8],
) -> (out: Result<[u8; 32], VaultError>)
    ensures
        unwrapped_key(
            wrapping_key(master_key@, opt_view(keyfile)),
            validation_nonce@,
            encrypted_validation_tag@,
            key_wrapping_nonce@,
            encrypted_file_key@,
        ) == (match out {
            Ok(k) => Ok(k@),
            Err(e) => Err(e),
        }),
{
    let empty: Vec<u8> = Vec::new();
    assert(empty@ =~= Seq::<u8>::empty());
    let mut wk = derive_wrapping_key(master_key, keyfile);
    let tag = open(&wk, validation_nonce, empty.as_slice(), encrypted_validation_tag);
    let magic: [u8; 9] = [0x51, 0x52, 0x45, 0x5f, 0x56, 0x41, 0x4c, 0x49, 0x44];
    assert(magic@ =~= validation_magic());
    match tag {
        None => {
            wipe(&mut wk);
            return Err(VaultError::BadCredential);
        },
        Some(t) => {
            if !bytes_equal(t.as_slice(), magic.as_slice()) {
                wipe(&mut wk);
                return Err(VaultError::ValidationMismatch);
            }
        },
    }
    let unwrapped = open(&wk, key_wrapping_nonce, empty.as_slice(), encrypted_file_key);
    wipe(&mut wk);
    let mut key_bytes = match unwrapped {
        None => { return Err(VaultError::BadCredential); },
        Some(k) => k,
    };
    if key_bytes.len() != 32 {
        wipe_vec(&mut key_bytes);
        return Err(VaultError::Malformed);
    }
    let file_key = get_array::<32>(key_bytes.as_slice(), 0);
    assert(file_key@ =~= key_bytes@);
    wipe_vec(&mut key_bytes);
    Ok(file_key)
}

} // verus!
