//! AES-256-GCM with 96-bit nonces and 128-bit tags.

use vstd::prelude::*;
use crate::error::VaultError;

verus! {

/// Bytes that sealing adds to a plaintext: the authentication tag.
pub const TAG_LEN: usize = 16;

/// Length of a key in bytes.
pub const KEY_LEN: usize = 32;

/// Length of a nonce in bytes.
pub const NONCE_LEN: usize = 12;

/// The longest plaintext, and the longest associated data, that the cipher
/// accepts.
pub open spec fn max_input_len() -> int {
    0x10_0000_0000
}

/// The ciphertext, tag at the end, of `plaintext` under `key` and `nonce`,
/// bound to `aad`.
pub uninterp spec fn aead_sealed(key: Seq<u8>, nonce: Seq<u8>, aad: Seq<u8>, plaintext: Seq<u8>) -> Seq<u8>;

/// What opening `sealed` under `key` and `nonce` with `aad` gives: the
/// plaintext, or nothing where the tag does not authenticate.
pub uninterp spec fn aead_opened(key: Seq<u8>, nonce: Seq<u8>, aad: Seq<u8>, sealed: Seq<u8>) -> Option<Seq<u8>>;

/// That `sealed` is the ciphertext of `plaintext` and opens to it again.
pub open spec fn seals(key: Seq<u8>, nonce: Seq<u8>, aad: Seq<u8>, plaintext: Seq<u8>, sealed: Seq<u8>) -> bool {
    &&& sealed == aead_sealed(key, nonce, aad, plaintext)
    &&& sealed.len() == plaintext.len() + TAG_LEN
    &&& aead_opened(key, nonce, aad, sealed) == Some(plaintext)
}

/// Calls `Aes256Gcm::new` and `Aead::encrypt` of `aes-gcm`. Trusted: the
/// call succeeds exactly when plaintext and associated data are within the
/// cipher's length limit; the result is the tagged ciphertext, 16 bytes
/// longer than the plaintext, and opening it with the same key, nonce and
/// associated data gives the plaintext back.
#[verifier::external_body]
pub(crate) fn aes256gcm_encrypt(key: &[u8; 32], nonce: &[u8; 12], aad: &[u8], plaintext: &[u8]) -> (out: Option<Vec<u8>>)
    requires
        plaintext@.len() + TAG_LEN <= isize::MAX,
    ensures
        out is Some <==> (plaintext@.len() <= max_input_len() && aad@.len() <= max_input_len()),
        out matches Some(c) ==> c@ == aead_sealed(key@, nonce@, aad@, plaintext@),
        out matches Some(c) ==> c@.len() == plaintext@.len() + TAG_LEN,
        out matches Some(c) ==> aead_opened(key@, nonce@, aad@, c@) == Some(plaintext@),
{
    let cipher = <aes_gcm::Aes256Gcm as aes_gcm::KeyInit>::new(key.into());
    let payload = aes_gcm::aead::Payload { msg: plaintext, aad };
    aes_gcm::aead::Aead::encrypt(&cipher, nonce.into(), payload).ok()
}

/// Calls `Aes256Gcm::new` and `Aead::decrypt` of `aes-gcm`. Trusted: the
/// result is what opening gives, and a plaintext that comes out is 16
/// bytes shorter than what went in.
#[verifier::external_body]
pub(crate) fn aes256gcm_decrypt(key: &[u8; 32], nonce: &[u8; 12], aad: &[u8], sealed: &[u8]) -> (out: Option<Vec<u8>>)
    ensures
        aead_opened(key@, nonce@, aad@, sealed@) == (match out {
            Some(p) => Some(p@),
            None => None,
        }),
        out matches Some(p) ==> p@.len() + TAG_LEN == sealed@.len(),
{
    let cipher = <aes_gcm::Aes256Gcm as aes_gcm::KeyInit>::new(key.into());
    let payload = aes_gcm::aead::Payload { msg: sealed, aad };
    aes_gcm::aead::Aead::decrypt(&cipher, nonce.into(), payload).ok()
}

/// Whether a plaintext of `len` bytes with `aad_len` bytes of associated
/// data can be sealed on this machine.
pub open spec fn sealable(len: int, aad_len: int) -> bool {
    &&& len <= max_input_len()
    &&& aad_len <= max_input_len()
    &&& len + TAG_LEN <= isize::MAX
}

/// Seals `plaintext` under `key` and `nonce`, binding `aad`.
pub fn seal(key: &[u8; 32], nonce: &[u8; 12], aad: &[u8], plaintext: &[u8]) -> (out: Result<Vec<u8>, VaultError>)
    ensures
        out is Ok <==> sealable(plaintext@.len() as int, aad@.len() as int),
        out matches Ok(c) ==> seals(key@, nonce@, aad@, plaintext@, c@),
        out matches Err(e) ==> e == VaultError::SizeLimitExceeded,
{
    if plaintext.len() > (isize::MAX as usize) - TAG_LEN {
        return Err(VaultError::SizeLimitExceeded);
    }
    match aes256gcm_encrypt(key, nonce, aad, plaintext) {
        Some(c) => Ok(c),
        None => Err(VaultError::SizeLimitExceeded),
    }
}

/// Opens `sealed` under `key` and `nonce` with `aad`.
pub fn open(key: &[u8; 32], nonce: &[u8; 12], aad: &[u8], sealed: &[u8]) -> (out: Option<Vec<u8>>)
    ensures
        aead_opened(key@, nonce@, aad@, sealed@) == (match out {
            Some(p) => Some(p@),
            None => None,
        }),
        out matches Some(p) ==> p@.len() + TAG_LEN == sealed@.len(),
{
    aes256gcm_decrypt(key, nonce, aad, sealed)
}

} // verus!
