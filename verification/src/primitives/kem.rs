//! The post-quantum key-encapsulation mechanism, Kyber-1024. New envelopes
//! do not use it; it stays so that older ones can be read.

use vstd::prelude::*;

verus! {

/// Length of a secret key in bytes.
pub const SECRET_KEY_LEN: usize = 3168;

/// Length of an encapsulated key in bytes.
pub const CIPHERTEXT_LEN: usize = 1568;

/// Length of a shared secret in bytes.
pub const SHARED_SECRET_LEN: usize = 32;

/// The shared secret that decapsulating `ciphertext` with `secret_key`
/// gives.
pub uninterp spec fn kyber1024_shared_secret(ciphertext: Seq<u8>, secret_key: Seq<u8>) -> Seq<u8>;

/// Calls `Ciphertext::from_bytes`, `SecretKey::from_bytes` and
/// `kyber1024::decapsulate` of `pqcrypto-kyber`. Trusted: nothing comes
/// back exactly when one of the two lengths is wrong; otherwise the result
/// is the 32-byte shared secret of the two.
#[verifier::external_body]
pub(crate) fn kyber1024_decapsulate(ciphertext: &[u8], secret_key: &[u8]) -> (out: Option<[u8; 32]>)
    ensures
        out is Some <==> (ciphertext@.len() == CIPHERTEXT_LEN && secret_key@.len() == SECRET_KEY_LEN),
        out matches Some(s) ==> s@ == kyber1024_shared_secret(ciphertext@, secret_key@),
{
    let ct = <pqcrypto_kyber::kyber1024::Ciphertext as pqcrypto_traits::kem::Ciphertext>::from_bytes(ciphertext).ok()?;
    let sk = <pqcrypto_kyber::kyber1024::SecretKey as pqcrypto_traits::kem::SecretKey>::from_bytes(secret_key).ok()?;
    let ss = pqcrypto_kyber::kyber1024::decapsulate(&ct, &sk);
    pqcrypto_traits::kem::SharedSecret::as_bytes(&ss).try_into().ok()
}

/// What decapsulation gives for byte strings of any length.
pub open spec fn decapsulated(ciphertext: Seq<u8>, secret_key: Seq<u8>) -> Option<Seq<u8>> {
    if ciphertext.len() == CIPHERTEXT_LEN && secret_key.len() == SECRET_KEY_LEN {
        Some(kyber1024_shared_secret(ciphertext, secret_key))
    } else {
        None
    }
}

/// Recovers the shared secret from an encapsulated key.
pub fn decapsulate(ciphertext: &[u8], secret_key: &[u8]) -> (out: Option<[u8; 32]>)
    ensures
        decapsulated(ciphertext@, secret_key@) == (match out {
            Some(s) => Some(s@),
            None => None,
        }),
{
    kyber1024_decapsulate(ciphertext, secret_key)
}

} // verus!
