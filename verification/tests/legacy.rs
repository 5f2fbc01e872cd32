use aes_gcm::aead::{Aead, KeyInit};
use pqcrypto_kyber::kyber1024;
use pqcrypto_traits::kem::{Ciphertext, SecretKey, SharedSecret};
use qre_locker::commands::unlock_bytes;
use qre_locker::container::InnerPayload;
use qre_locker::error::VaultError;
use qre_locker::keys::{derive_wrapping_key, MasterKey};
use qre_locker::legacy::{decrypt_legacy, LegacyContainer};
use qre_locker::primitives::compress::compress_data;
use qre_locker::primitives::hash::digest;
use qre_locker::primitives::kem::decapsulate;

fn seal(key: &[u8], nonce: &[u8; 12], plaintext: &[u8]) -> Vec<u8> {
    let cipher = aes_gcm::Aes256Gcm::new_from_slice(key).unwrap();
    cipher.encrypt(nonce.into(), plaintext).unwrap()
}

/// An envelope as the older versions wrote it.
fn legacy_bytes(mk: &MasterKey, keyfile: Option<&[u8]>, version: u32, name: &str, data: &[u8]) -> Vec<u8> {
    let payload = InnerPayload { filename: name.to_string(), content: compress_data(data, 3).unwrap() };
    let blob = payload.to_bytes();
    let (pk, sk) = kyber1024::keypair();
    let (ss, ct) = kyber1024::encapsulate(&pk);
    let hybrid_nonce = [1u8; 12];
    let wrapping_nonce = [2u8; 12];
    let validation_nonce = [3u8; 12];
    let body = seal(ss.as_bytes(), &hybrid_nonce, &blob);
    let wk = derive_wrapping_key(mk, keyfile);
    let sealed_sk = seal(&wk, &wrapping_nonce, sk.as_bytes());
    let sealed_tag = seal(&wk, &validation_nonce, b"QRE_VALID");
    let header = (
        wrapping_nonce.to_vec(),
        sealed_sk,
        validation_nonce.to_vec(),
        sealed_tag,
        hybrid_nonce.to_vec(),
        ct.as_bytes().to_vec(),
        keyfile.is_some(),
    );
    if version == 2 {
        bincode::serialize(&(version, header, body)).unwrap()
    } else {
        let hash: Option<Vec<u8>> = Some(digest(data).to_vec());
        let h = (header.0, header.1, header.2, header.3, header.4, header.5, header.6, hash);
        bincode::serialize(&(version, h, body)).unwrap()
    }
}

#[test]
fn version_3_envelope_opens() {
    let mk = MasterKey([4u8; 32]);
    let bytes = legacy_bytes(&mk, None, 3, "old.txt", b"kept since long ago");
    let c = LegacyContainer::load(&bytes).unwrap();
    assert_eq!(c.version, 3);
    assert_eq!(c.header.original_hash, Some(digest(b"kept since long ago").to_vec()));
    let p = decrypt_legacy(&mk, None, &c).unwrap();
    assert_eq!(p.filename, "old.txt");
    assert_eq!(p.content, b"kept since long ago".to_vec());
}

#[test]
fn version_2_envelope_loads_without_a_hash() {
    let mk = MasterKey([4u8; 32]);
    let bytes = legacy_bytes(&mk, None, 2, "older.txt", b"abc");
    let c = LegacyContainer::load(&bytes).unwrap();
    assert_eq!(c.version, 3);
    assert_eq!(c.header.original_hash, None);
    let p = decrypt_legacy(&mk, None, &c).unwrap();
    assert_eq!(p.content, b"abc".to_vec());
}

#[test]
fn legacy_failures() {
    let mk = MasterKey([4u8; 32]);
    let keyfile = digest(b"keyfile");
    let bytes = legacy_bytes(&mk, Some(&keyfile), 3, "old.txt", b"abc");
    let c = LegacyContainer::load(&bytes).unwrap();
    assert_eq!(decrypt_legacy(&mk, None, &c).unwrap_err(), VaultError::KeyfileRequired);
    assert_eq!(decrypt_legacy(&mk, Some(&keyfile), &c).unwrap().content, b"abc".to_vec());
    let wrong = MasterKey([5u8; 32]);
    assert_eq!(
        decrypt_legacy(&wrong, Some(&keyfile), &c).unwrap_err(),
        VaultError::BadCredential
    );

    let mut tampered = LegacyContainer::load(&bytes).unwrap();
    tampered.header.original_hash = Some(vec![0u8; 32]);
    assert_eq!(
        decrypt_legacy(&mk, Some(&keyfile), &tampered).unwrap_err(),
        VaultError::IntegrityFailure
    );

    let mut short_nonce = LegacyContainer::load(&bytes).unwrap();
    short_nonce.header.hybrid_nonce.pop();
    assert_eq!(
        decrypt_legacy(&mk, Some(&keyfile), &short_nonce).unwrap_err(),
        VaultError::Malformed
    );

    let mut bad_kem = LegacyContainer::load(&bytes).unwrap();
    bad_kem.header.kyber_encapped_session_key.pop();
    assert_eq!(
        decrypt_legacy(&mk, Some(&keyfile), &bad_kem).unwrap_err(),
        VaultError::Malformed
    );

    let mut bad_body = LegacyContainer::load(&bytes).unwrap();
    bad_body.ciphertext[0] ^= 1;
    assert_eq!(
        decrypt_legacy(&mk, Some(&keyfile), &bad_body).unwrap_err(),
        VaultError::IntegrityFailure
    );
}

#[test]
fn legacy_versions() {
    assert_eq!(LegacyContainer::load(&[4, 0, 0, 0]).unwrap_err(), VaultError::UnsupportedVersion);
    assert_eq!(LegacyContainer::load(&[3, 0]).unwrap_err(), VaultError::UnsupportedVersion);
    assert_eq!(LegacyContainer::load(&[3, 0, 0, 0, 1]).unwrap_err(), VaultError::Malformed);
}

#[test]
fn decapsulation_recovers_the_shared_secret() {
    let (pk, sk) = kyber1024::keypair();
    let (ss, ct) = kyber1024::encapsulate(&pk);
    let got = decapsulate(ct.as_bytes(), sk.as_bytes()).unwrap();
    assert_eq!(&got[..], ss.as_bytes());
    assert_ne!(got.to_vec(), ct.as_bytes()[..32].to_vec());
    assert_eq!(decapsulate(&ct.as_bytes()[1..], sk.as_bytes()), None);
    assert_eq!(decapsulate(ct.as_bytes(), &sk.as_bytes()[1..]), None);
}

#[test]
fn older_envelopes_open_through_the_common_reader() {
    let mk = MasterKey([4u8; 32]);
    for version in [2u32, 3] {
        let bytes = legacy_bytes(&mk, Some(b"kf"), version, "old.txt", b"kept since long ago");
        let p = unlock_bytes(&mk, Some(b"kf"), &bytes).unwrap();
        assert_eq!(p.filename, "old.txt");
        assert_eq!(p.content, b"kept since long ago".to_vec());
        assert_eq!(unlock_bytes(&mk, None, &bytes).unwrap_err(), VaultError::KeyfileRequired);
    }
}
