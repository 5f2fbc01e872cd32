//! The memory-hard key-derivation function, Argon2id.

use vstd::prelude::*;
use crate::error::VaultError;
use crate::primitives::random::os_random;

verus! {

/// The 32-byte key that Argon2id (version 0x13) derives from `secret` and
/// the base64 `salt` at the given costs, or nothing where the function
/// rejects the salt or the costs.
pub uninterp spec fn argon2id(secret: Seq<u8>, salt: Seq<char>, memory: u32, iterations: u32, parallelism: u32) -> Option<Seq<u8>>;

/// The largest degree of parallelism that the function takes.
pub const MAX_PARALLELISM: u32 = 0x00FF_FFFF;

/// Calls `Params::new`, `SaltString::from_b64` and
/// `PasswordHasher::hash_password` of `argon2`. Trusted: the result is the
/// key the function derives from exactly these arguments, and nothing where
/// any of the three calls refuses. A degree of parallelism above the
/// function's maximum is left out: the costs are multiplied before they
/// are checked.
#[verifier::external_body]
pub(crate) fn argon2id_raw(secret: &[u8], salt: &str, memory: u32, iterations: u32, parallelism: u32) -> (out: Option<[u8; 32]>)
    requires
        parallelism <= MAX_PARALLELISM,
    ensures
        argon2id(secret@, salt@, memory, iterations, parallelism) == (match out {
            Some(k) => Some(k@),
            None => None,
        }),
{
    let params = argon2::Params::new(memory, iterations, parallelism, Some(32)).ok()?;
    let salt = argon2::password_hash::SaltString::from_b64(salt).ok()?;
    let kdf = argon2::Argon2::new(argon2::Algorithm::Argon2id, argon2::Version::V0x13, params);
    let hash = argon2::PasswordHasher::hash_password(&kdf, secret, &salt).ok()?;
    hash.hash?.as_bytes().try_into().ok()
}

/// Whether `c` is a character of base64: a letter, a digit, `+` or `/`.
pub open spec fn is_base64_char(c: char) -> bool {
    ('A' <= c && c <= 'Z') || ('a' <= c && c <= 'z') || ('0' <= c && c <= '9') || c == '+' || c
        == '/'
}

/// How many whole bytes that many characters of base64 stand for.
pub open spec fn base64_bytes(chars: nat) -> nat {
    chars * 6 / 8
}

/// The shape of a salt as it is drawn: 22 characters of base64 without
/// padding, which stand for 16 random bytes.
pub open spec fn is_salt_text(salt: Seq<char>) -> bool {
    &&& salt.len() == 22
    &&& forall|i: int| 0 <= i < salt.len() ==> is_base64_char(#[trigger] salt[i])
}

/// A salt of the shape drawn stands for 16 bytes.
pub proof fn lemma_salt_holds_sixteen_bytes(salt: Seq<char>)
    requires
        is_salt_text(salt),
    ensures
        base64_bytes(salt.len()) == 16,
{
}

/// The text of a salt of 16 bytes: the bytes in base64 without padding.
pub uninterp spec fn salt_text(bytes: Seq<u8>) -> Seq<char>;

/// Calls `SaltString::encode_b64` of `password-hash` on 16 bytes.
/// Trusted: the call succeeds, and the result is the bytes in base64
/// without padding, 22 characters of the base64 alphabet.
#[verifier::external_body]
pub(crate) fn salt_encode(bytes: &[u8; 16]) -> (out: Option<String>)
    ensures
        out is Some,
        out matches Some(s) ==> s@ == salt_text(bytes@),
        out matches Some(s) ==> is_salt_text(s@),
{
    Some(argon2::password_hash::SaltString::encode_b64(bytes).ok()?.as_str().to_string())
}

/// What the key derivation gives at the given costs: nothing above the
/// largest degree of parallelism, and else what Argon2id gives.
pub open spec fn kdf_output(secret: Seq<u8>, salt: Seq<char>, memory: u32, iterations: u32, parallelism: u32) -> Option<Seq<u8>> {
    if parallelism > MAX_PARALLELISM {
        None
    } else {
        argon2id(secret, salt, memory, iterations, parallelism)
    }
}

/// What deriving a key-encryption key gives: the key, or the failure
/// reported where the function refuses its input.
pub open spec fn derived_key(secret: Seq<u8>, salt: Seq<char>, memory: u32, iterations: u32, parallelism: u32) -> Result<Seq<u8>, VaultError> {
    match kdf_output(secret, salt, memory, iterations, parallelism) {
        Some(k) => Ok(k),
        None => Err(VaultError::KdfFailure),
    }
}

/// Derives the 32-byte key-encryption key for `secret` under `salt`. Costs
/// that the function does not take, and a salt it does not take, are a
/// derivation failure.
pub fn derive_kek(secret: &str, salt: &str, memory: u32, iterations: u32, parallelism: u32) -> (out: Result<[u8; 32], VaultError>)
    ensures
        derived_key(vstd::utf8::encode_utf8(secret@), salt@, memory, iterations, parallelism) == (match out {
            Ok(k) => Ok(k@),
            Err(e) => Err(e),
        }),
{
    if parallelism > MAX_PARALLELISM {
        return Err(VaultError::KdfFailure);
    }
    match argon2id_raw(secret.as_bytes(), salt, memory, iterations, parallelism) {
        Some(k) => Ok(k),
        None => Err(VaultError::KdfFailure),
    }
}

/// Draws a fresh salt: 16 bytes from the operating system's random
/// source, written as 22 characters of base64. Fails only where the
/// random source does.
pub fn fresh_salt() -> (out: Result<String, VaultError>)
    ensures
        out matches Ok(salt) ==> is_salt_text(salt@),
        out matches Err(e) ==> e == VaultError::IOFailure,
{
    let bytes = match os_random::<16>() {
        Some(b) => b,
        None => { return Err(VaultError::IOFailure); },
    };
    salt_from_bytes(&bytes)
}

/// Writes 16 bytes as a salt.
pub fn salt_from_bytes(bytes: &[u8; 16]) -> (out: Result<String, VaultError>)
    ensures
        out matches Ok(salt) && salt@ == salt_text(bytes@) && is_salt_text(salt@),
{
    match salt_encode(bytes) {
        Some(s) => Ok(s),
        None => Err(VaultError::IOFailure),
    }
}

} // verus!
