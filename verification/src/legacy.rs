//! Envelopes of the older formats, versions 2 and 3, in which the body
//! key is the shared secret of a key encapsulation. They are read, never
//! written.

use vstd::prelude::*;
use crate::codec::{
    bytes_equal, get_array, read_fixed, read_prefixed, read_u32_le, take_array, take_prefixed,
    take_u32_le,
};
use crate::container::{read_bool, take_bool, InnerPayload, PayloadView};
use crate::crypto::validation_magic;
use crate::error::VaultError;
use crate::keys::{derive_wrapping_key, opt_view, wrapping_key, MasterKey};
use crate::primitives::aead::{aead_opened, open};
use crate::primitives::compress::{decompress_data};
use crate::primitives::hash::{sha256_raw};
use crate::primitives::kem::{decapsulate, decapsulated};
use crate::primitives::wipe::{wipe, wipe_vec};

verus! {

/// The header of an older envelope.
#[derive(Debug)]
pub struct LegacyFileHeader {
    pub wrapping_nonce: Vec<u8>,
    pub encrypted_private_key: Vec<u8>,
    pub validation_nonce: Vec<u8>,
    pub encrypted_validation_tag: Vec<u8>,
    pub hybrid_nonce: Vec<u8>,
    pub kyber_encapped_session_key: Vec<u8>,
    pub uses_keyfile: bool,
    /// The hash of the payload. Version 2 stores none.
    pub original_hash: Option<Vec<u8>>,
}

/// The mathematical value of a [`LegacyFileHeader`].
pub struct LegacyHeaderView {
    pub wrapping_nonce: Seq<u8>,
    pub encrypted_private_key: Seq<u8>,
    pub validation_nonce: Seq<u8>,
    pub encrypted_validation_tag: Seq<u8>,
    pub hybrid_nonce: Seq<u8>,
    pub kyber_encapped_session_key: Seq<u8>,
    pub uses_keyfile: bool,
    pub original_hash: Option<Seq<u8>>,
}

impl View for LegacyFileHeader {
    type V = LegacyHeaderView;

    open spec fn view(&self) -> LegacyHeaderView {
        LegacyHeaderView {
            wrapping_nonce: self.wrapping_nonce@,
            encrypted_private_key: self.encrypted_private_key@,
            validation_nonce: self.validation_nonce@,
            encrypted_validation_tag: self.encrypted_validation_tag@,
            hybrid_nonce: self.hybrid_nonce@,
            kyber_encapped_session_key: self.kyber_encapped_session_key@,
            uses_keyfile: self.uses_keyfile,
            original_hash: match self.original_hash {
                Some(h) => Some(h@),
                None => None,
            },
        }
    }
}

/// An older envelope, as it is held after loading: always in the shape of
/// version 3.
#[derive(Debug)]
pub struct LegacyContainer {
    pub version: u32,
    pub header: LegacyFileHeader,
    pub ciphertext: Vec<u8>,
}

/// The mathematical value of a [`LegacyContainer`].
pub struct LegacyView {
    pub version: u32,
    pub header: LegacyHeaderView,
    pub ciphertext: Seq<u8>,
}

impl View for LegacyContainer {
    type V = LegacyView;

    open spec fn view(&self) -> LegacyView {
        LegacyView { version: self.version, header: self.header@, ciphertext: self.ciphertext@ }
    }
}

/// The six byte strings that every older header starts with.
pub struct LegacyKeysView {
    pub wrapping_nonce: Seq<u8>,
    pub encrypted_private_key: Seq<u8>,
    pub validation_nonce: Seq<u8>,
    pub encrypted_validation_tag: Seq<u8>,
    pub hybrid_nonce: Seq<u8>,
    pub kyber_encapped_session_key: Seq<u8>,
}

/// Reads the six byte strings off the front of `b`.
#[verifier::opaque]
pub open spec fn read_legacy_keys(b: Seq<u8>) -> Option<(LegacyKeysView, Seq<u8>)> {
    match read_prefixed(b) {
        None => None,
        Some((wrapping_nonce, b1)) => match read_prefixed(b1) {
            None => None,
            Some((encrypted_private_key, b2)) => match read_prefixed(b2) {
                None => None,
                Some((validation_nonce, b3)) => match read_prefixed(b3) {
                    None => None,
                    Some((encrypted_validation_tag, b4)) => match read_prefixed(b4) {
                        None => None,
                        Some((hybrid_nonce, b5)) => match read_prefixed(b5) {
                            None => None,
                            Some((kyber_encapped_session_key, b6)) => Some(
                                (
                                    LegacyKeysView {
                                        wrapping_nonce,
                                        encrypted_private_key,
                                        validation_nonce,
                                        encrypted_validation_tag,
                                        hybrid_nonce,
                                        kyber_encapped_session_key,
                                    },
                                    b6,
                                ),
                            ),
                        },
                    },
                },
            },
        },
    }
}

/// Reads an optional hash of any length off the front of `b`.
pub open spec fn read_legacy_hash(b: Seq<u8>) -> Option<(Option<Seq<u8>>, Seq<u8>)> {
    match read_fixed(b, 1) {
        None => None,
        Some((v, rest)) => if v[0] == 0 {
            Some((None, rest))
        } else if v[0] == 1 {
            match read_prefixed(rest) {
                None => None,
                Some((h, after)) => Some((Some(h), after)),
            }
        } else {
            None
        },
    }
}

/// Reads an older envelope. Version 2 has no hash in its header and loads
/// with none; version 3 has an optional one. Either loads as version 3.
/// Any other version, or fewer than four bytes, is unsupported.
pub open spec fn read_legacy(b: Seq<u8>) -> Result<LegacyView, VaultError> {
    match read_u32_le(b) {
        None => Err(VaultError::UnsupportedVersion),
        Some((version, b1)) => if version != 2 && version != 3 {
            Err(VaultError::UnsupportedVersion)
        } else {
            match read_legacy_keys(b1) {
                None => Err(VaultError::Malformed),
                Some((keys, b2)) => match read_bool(b2) {
                    None => Err(VaultError::Malformed),
                    Some((uses_keyfile, b3)) => match (if version == 2 {
                        Some((None, b3))
                    } else {
                        read_legacy_hash(b3)
                    }) {
                        None => Err(VaultError::Malformed),
                        Some((original_hash, b4)) => match read_prefixed(b4) {
                            None => Err(VaultError::Malformed),
                            Some((ciphertext, _)) => Ok(
                                LegacyView {
                                    version: 3,
                                    header: LegacyHeaderView {
                                        wrapping_nonce: keys.wrapping_nonce,
                                        encrypted_private_key: keys.encrypted_private_key,
                                        validation_nonce: keys.validation_nonce,
                                        encrypted_validation_tag: keys.encrypted_validation_tag,
                                        hybrid_nonce: keys.hybrid_nonce,
                                        kyber_encapped_session_key: keys.kyber_encapped_session_key,
                                        uses_keyfile,
                                        original_hash,
                                    },
                                    ciphertext,
                                },
                            ),
                        },
                    },
                },
            }
        },
    }
}

/// What recovering the body key of an older envelope gives: the
/// validation tag must open under the wrapping key and hold the constant;
/// the sealed secret key must open; and decapsulating the encapsulated
/// key with it gives the body key. A nonce that is not 12 bytes, and a
/// secret key or encapsulated key of the wrong length, are malformed.
pub open spec fn legacy_body_key(wk: Seq<u8>, h: LegacyHeaderView) -> Result<Seq<u8>, VaultError> {
    if h.validation_nonce.len() != 12 || h.wrapping_nonce.len() != 12 || h.hybrid_nonce.len() != 12 {
        Err(VaultError::Malformed)
    } else {
        match aead_opened(wk, h.validation_nonce, Seq::empty(), h.encrypted_validation_tag) {
            None => Err(VaultError::BadCredential),
            Some(tag) => if tag != validation_magic() {
                Err(VaultError::ValidationMismatch)
            } else {
                match aead_opened(wk, h.wrapping_nonce, Seq::empty(), h.encrypted_private_key) {
                    None => Err(VaultError::BadCredential),
                    Some(secret_key) => match decapsulated(h.kyber_encapped_session_key, secret_key) {
                        None => Err(VaultError::Malformed),
                        Some(shared) => Ok(shared),
                    },
                }
            },
        }
    }
}

/// What opening an older envelope gives.
pub open spec fn legacy_decrypted(master_key: Seq<u8>, keyfile: Option<Seq<u8>>, c: LegacyView) -> Result<
    PayloadView,
    VaultError,
> {
    if c.header.uses_keyfile && keyfile is None {
        Err(VaultError::KeyfileRequired)
    } else {
        match legacy_body_key(wrapping_key(master_key, keyfile), c.header) {
            Err(e) => Err(e),
            Ok(key) => match crate::crypto::opened_body(key, c.header.hybrid_nonce, c.ciphertext) {
                Err(e) => Err(e),
                Ok(p) => crate::crypto::hash_checked(c.header.original_hash, p),
            },
        }
    }
}

/// Reads the six byte strings at `pos`.
fn take_legacy_keys(bytes: &[u8], pos: usize) -> (out: Option<
    (Vec<u8>, Vec<u8>, Vec<u8>, Vec<u8>, Vec<u8>, Vec<u8>, usize),
>)
    requires
        pos <= bytes@.len(),
    ensures
        match read_legacy_keys(bytes@.skip(pos as int)) {
            Some((k, rest)) => out matches Some((a, b, c, d, e, f, next)) && a@ == k.wrapping_nonce
                && b@ == k.encrypted_private_key && c@ == k.validation_nonce && d@
                == k.encrypted_validation_tag && e@ == k.hybrid_nonce && f@
                == k.kyber_encapped_session_key && pos <= next <= bytes@.len() && bytes@.skip(
                next as int,
            ) == rest,
            None => out is None,
        },
{
    proof {
        reveal(read_legacy_keys);
    }
    let (a, p1) = match take_prefixed(bytes, pos) {
        Some(r) => r,
        None => { return None; },
    };
    let (b, p2) = match take_prefixed(bytes, p1) {
        Some(r) => r,
        None => { return None; },
    };
    let (c, p3) = match take_prefixed(bytes, p2) {
        Some(r) => r,
        None => { return None; },
    };
    let (d, p4) = match take_prefixed(bytes, p3) {
        Some(r) => r,
        None => { return None; },
    };
    let (e, p5) = match take_prefixed(bytes, p4) {
        Some(r) => r,
        None => { return None; },
    };
    let (f, p6) = match take_prefixed(bytes, p5) {
        Some(r) => r,
        None => { return None; },
    };
    Some((a, b, c, d, e, f, p6))
}

/// Reads an optional hash of any length at `pos`.
fn take_legacy_hash(bytes: &[u8], pos: usize) -> (out: Option<(Option<Vec<u8>>, usize)>)
    requires
        pos <= bytes@.len(),
    ensures
        match read_legacy_hash(bytes@.skip(pos as int)) {
            Some((v, rest)) => out matches Some((h, next)) && pos <= next <= bytes@.len()
                && bytes@.skip(next as int) == rest && v == (match h {
                Some(x) => Some(x@),
                None => None,
            }),
            None => out is None,
        },
{
    match take_array::<1>(bytes, pos) {
        None => None,
        Some((v, next)) => if v[0] == 0 {
            Some((None, next))
        } else if v[0] == 1 {
            match take_prefixed(bytes, next) {
                None => None,
                Some((h, after)) => Some((Some(h), after)),
            }
        } else {
            None
        },
    }
}

impl LegacyContainer {
    /// Reads an older envelope from the bytes of a file.
    pub fn load(bytes: &[u8]) -> (out: Result<LegacyContainer, VaultError>)
        ensures
            read_legacy(bytes@) == (match out {
                Ok(c) => Ok(c@),
                Err(e) => Err(e),
            }),
    {
        assert(bytes@.skip(0) =~= bytes@);
        let total = bytes.len();
        let (version, p1) = match take_u32_le(bytes, 0) {
            Some(r) => r,
            None => { return Err(VaultError::UnsupportedVersion); },
        };
        if version != 2 && version != 3 {
            return Err(VaultError::UnsupportedVersion);
        }
        let (
            wrapping_nonce,
            encrypted_private_key,
            validation_nonce,
            encrypted_validation_tag,
            hybrid_nonce,
            kyber_encapped_session_key,
            p2,
        ) = match take_legacy_keys(bytes, p1) {
            Some(r) => r,
            None => { return Err(VaultError::Malformed); },
        };
        let (uses_keyfile, p3) = match take_bool(bytes, p2) {
            Some(r) => r,
            None => { return Err(VaultError::Malformed); },
        };
        let (original_hash, p4) = if version == 2 {
            (None, p3)
        } else {
            match take_legacy_hash(bytes, p3) {
                Some(r) => r,
                None => { return Err(VaultError::Malformed); },
            }
        };
        let (ciphertext, _) = match take_prefixed(bytes, p4) {
            Some(r) => r,
            None => { return Err(VaultError::Malformed); },
        };
        Ok(
            LegacyContainer {
                version: 3,
                header: LegacyFileHeader {
                    wrapping_nonce,
                    encrypted_private_key,
                    validation_nonce,
                    encrypted_validation_tag,
                    hybrid_nonce,
                    kyber_encapped_session_key,
                    uses_keyfile,
                    original_hash,
                },
                ciphertext,
            },
        )
    }
}

/// Recovers the body key of an older envelope.
pub fn recover_body_key(master_key: &MasterKey, keyfile: Option<&[u8]>, h: &LegacyFileHeader) -> (out: Result<
    [u8; 32],
    VaultError,
>)
    ensures
        legacy_body_key(wrapping_key(master_key@, opt_view(keyfile)), h@) == (match out {
            Ok(k) => Ok(k@),
            Err(e) => Err(e),
        }),
{
    if h.validation_nonce.len() != 12 || h.wrapping_nonce.len() != 12 || h.hybrid_nonce.len() != 12 {
        return Err(VaultError::Malformed);
    }
    let validation_nonce = get_array::<12>(h.validation_nonce.as_slice(), 0);
    assert(validation_nonce@ =~= h.validation_nonce@);
    let wrapping_nonce = get_array::<12>(h.wrapping_nonce.as_slice(), 0);
    assert(wrapping_nonce@ =~= h.wrapping_nonce@);
    let empty: Vec<u8> = Vec::new();
    assert(empty@ =~= Seq::<u8>::empty());
    let mut wk = derive_wrapping_key(master_key, keyfile);
    let tag = open(&wk, &validation_nonce, empty.as_slice(), h.encrypted_validation_tag.as_slice());
    let magic: [u8; 9] = [0x51, 0x52, 0x45, 0x5f, 0x56, 0x41, 0x4c, 0x49, 0x44];
    assert(magic@ =~= validation_magic());
    match tag {
        None => {
            wipe(&mut wk);
            return Err(VaultError::BadCredential);
        },
        Some(t) => {
            if !bytes_equal(t.as_slice(), magic.as_slice()) {
                wipe(&mut wk);
                return Err(VaultError::ValidationMismatch);
            }
        },
    }
    let opened = open(&wk, &wrapping_nonce, empty.as_slice(), h.encrypted_private_key.as_slice());
    wipe(&mut wk);
    let mut secret_key = match opened {
        Some(k) => k,
        None => { return Err(VaultError::BadCredential); },
    };
    let shared = decapsulate(h.kyber_encapped_session_key.as_slice(), secret_key.as_slice());
    wipe_vec(&mut secret_key);
    match shared {
        Some(s) => Ok(s),
        None => Err(VaultError::Malformed),
    }
}

/// Opens an older envelope.
pub fn decrypt_legacy(master_key: &MasterKey, keyfile_bytes: Option<&[u8]>, container: &LegacyContainer) -> (out:
    Result<InnerPayload, VaultError>)
    ensures
        legacy_decrypted(master_key@, opt_view(keyfile_bytes), container@) == (match out {
            Ok(p) => Ok(p@),
            Err(e) => Err(e),
        }),
{
    let h = &container.header;
    if h.uses_keyfile && keyfile_bytes.is_none() {
        return Err(VaultError::KeyfileRequired);
    }
    let mut key = match recover_body_key(master_key, keyfile_bytes, h) {
        Ok(k) => k,
        Err(e) => { return Err(e); },
    };
    let hybrid_nonce = get_array::<12>(h.hybrid_nonce.as_slice(), 0);
    assert(hybrid_nonce@ =~= h.hybrid_nonce@);
    let empty: Vec<u8> = Vec::new();
    assert(empty@ =~= Seq::<u8>::empty());
    let opened = open(&key, &hybrid_nonce, empty.as_slice(), container.ciphertext.as_slice());
    wipe(&mut key);
    let mut blob = match opened {
        None => { return Err(VaultError::IntegrityFailure); },
        Some(b) => b,
    };
    let parsed = InnerPayload::from_bytes(blob.as_slice());
    wipe_vec(&mut blob);
    let inner = match parsed {
        None => { return Err(VaultError::Malformed); },
        Some(p) => p,
    };
    let content = match decompress_data(inner.content.as_slice()) {
        Err(_) => { return Err(VaultError::Malformed); },
        Ok(d) => d,
    };
    match &h.original_hash {
        Some(expected) => {
            let actual = sha256_raw(content.as_slice());
            if !bytes_equal(actual.as_slice(), expected.as_slice()) {
                return Err(VaultError::IntegrityFailure);
            }
        },
        None => {},
    }
    Ok(InnerPayload { filename: inner.filename, content })
}

} // verus!
