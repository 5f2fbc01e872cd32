use qre_locker::container::{EncryptedFileContainer, InnerPayload};
use qre_locker::crypto::{
    decrypt_file_with_master_key, encrypt_file_with_master_key, seal_container, SealingMaterial,
};
use qre_locker::error::VaultError;
use qre_locker::keys::MasterKey;
use qre_locker::primitives::hash::digest;

fn key() -> MasterKey {
    MasterKey([7u8; 32])
}

#[test]
fn round_trip_small_file() {
    let mk = key();
    let payload = b"hello, qre-world!";
    assert_eq!(payload.len(), 17);
    let c = encrypt_file_with_master_key(&mk, None, "hello.txt", payload, None, 3).unwrap();
    assert_eq!(c.version, 4);
    assert_eq!(c.header.original_hash, Some(digest(payload)));
    let bytes = c.save();
    let back = EncryptedFileContainer::load(&bytes).unwrap();
    let p = decrypt_file_with_master_key(&mk, None, &back).unwrap();
    assert_eq!(p.filename, "hello.txt");
    assert_eq!(p.content, payload.to_vec());
}

#[test]
fn round_trip_at_every_level() {
    let mk = key();
    let mut payload = Vec::new();
    for i in 0..5000u32 {
        payload.push((i % 251) as u8);
    }
    for level in [0, 1, 3, 15, 19] {
        let c = encrypt_file_with_master_key(&mk, None, "data.bin", &payload, None, level).unwrap();
        let p = decrypt_file_with_master_key(&mk, None, &c).unwrap();
        assert_eq!(p.content, payload);
        assert_eq!(p.filename, "data.bin");
    }
}

#[test]
fn round_trip_empty_payload() {
    let mk = key();
    let c = encrypt_file_with_master_key(&mk, None, "", &[], None, 3).unwrap();
    let p = decrypt_file_with_master_key(&mk, None, &c).unwrap();
    assert_eq!(p.filename, "");
    assert!(p.content.is_empty());
}

#[test]
fn keyfile_binding() {
    let mk = key();
    let keyfile = digest(&[0u8; 4096]);
    let other = digest(&[1u8; 4096]);
    let c = encrypt_file_with_master_key(&mk, Some(&keyfile), "k.txt", b"secret", None, 3).unwrap();
    assert!(c.header.uses_keyfile);
    assert_eq!(
        decrypt_file_with_master_key(&mk, None, &c).unwrap_err(),
        VaultError::KeyfileRequired
    );
    let p = decrypt_file_with_master_key(&mk, Some(&keyfile), &c).unwrap();
    assert_eq!(p.content, b"secret".to_vec());
    assert_eq!(
        decrypt_file_with_master_key(&mk, Some(&other), &c).unwrap_err(),
        VaultError::BadCredential
    );
}

#[test]
fn wrong_master_key_is_bad_credential() {
    let c = encrypt_file_with_master_key(&key(), None, "a", b"abc", None, 3).unwrap();
    let wrong = MasterKey([8u8; 32]);
    assert_eq!(
        decrypt_file_with_master_key(&wrong, None, &c).unwrap_err(),
        VaultError::BadCredential
    );
}

#[test]
fn tampered_hash_is_integrity_failure() {
    let mk = key();
    let mut c = encrypt_file_with_master_key(&mk, None, "a", b"abc", None, 3).unwrap();
    let mut h = c.header.original_hash.unwrap();
    h[0] ^= 1;
    c.header.original_hash = Some(h);
    assert_eq!(
        decrypt_file_with_master_key(&mk, None, &c).unwrap_err(),
        VaultError::IntegrityFailure
    );
}

#[test]
fn tampered_body_is_integrity_failure() {
    let mk = key();
    let mut c = encrypt_file_with_master_key(&mk, None, "a", b"abc", None, 3).unwrap();
    let mid = c.ciphertext.len() / 2;
    c.ciphertext[mid] ^= 0x80;
    assert_eq!(
        decrypt_file_with_master_key(&mk, None, &c).unwrap_err(),
        VaultError::IntegrityFailure
    );
}

#[test]
fn tampered_validation_tag_is_bad_credential() {
    let mk = key();
    let mut c = encrypt_file_with_master_key(&mk, None, "a", b"abc", None, 3).unwrap();
    c.header.encrypted_validation_tag[0] ^= 1;
    assert_eq!(
        decrypt_file_with_master_key(&mk, None, &c).unwrap_err(),
        VaultError::BadCredential
    );
}

#[test]
fn crafted_validation_tag_is_mismatch() {
    let mk = key();
    let material = SealingMaterial {
        file_key: [1u8; 32],
        body_nonce: [2u8; 12],
        key_wrapping_nonce: [3u8; 12],
        validation_nonce: [4u8; 12],
    };
    let mut c = seal_container(&mk, None, "a", b"abc", 3, &material).unwrap();
    // the wrapped file key opens under the wrapping key, but is not the constant
    c.header.encrypted_validation_tag = c.header.encrypted_file_key.clone();
    c.header.validation_nonce = c.header.key_wrapping_nonce;
    assert_eq!(
        decrypt_file_with_master_key(&mk, None, &c).unwrap_err(),
        VaultError::ValidationMismatch
    );
}

#[test]
fn same_material_gives_same_bytes() {
    let mk = key();
    let material = SealingMaterial {
        file_key: [1u8; 32],
        body_nonce: [2u8; 12],
        key_wrapping_nonce: [3u8; 12],
        validation_nonce: [4u8; 12],
    };
    let a = seal_container(&mk, None, "a", b"abc", 3, &material).unwrap().save();
    let b = seal_container(&mk, None, "a", b"abc", 3, &material).unwrap().save();
    assert_eq!(a, b);
}

#[test]
fn same_seed_gives_same_nonces() {
    let mk = key();
    let seed = [42u8; 32];
    let a = encrypt_file_with_master_key(&mk, None, "a", b"abc", Some(seed), 3).unwrap();
    let b = encrypt_file_with_master_key(&mk, None, "a", b"abc", Some(seed), 3).unwrap();
    assert_eq!(a.header.body_nonce, b.header.body_nonce);
    assert_eq!(a.header.key_wrapping_nonce, b.header.key_wrapping_nonce);
    assert_eq!(a.header.validation_nonce, b.header.validation_nonce);
    assert_ne!(a.header.body_nonce, a.header.key_wrapping_nonce);
}

#[test]
fn unseeded_envelopes_differ() {
    let mk = key();
    let a = encrypt_file_with_master_key(&mk, None, "a", b"abc", None, 3).unwrap().save();
    let b = encrypt_file_with_master_key(&mk, None, "a", b"abc", None, 3).unwrap().save();
    assert_ne!(a, b);
}

#[test]
fn wire_form_matches_bincode() {
    let mk = key();
    let c = encrypt_file_with_master_key(&mk, None, "n", b"abc", None, 3).unwrap();
    let expected = bincode::serialize(&(
        c.version,
        (
            c.header.validation_nonce,
            c.header.encrypted_validation_tag.clone(),
            c.header.key_wrapping_nonce,
            c.header.encrypted_file_key.clone(),
            c.header.body_nonce,
            c.header.uses_keyfile,
            c.header.original_hash,
        ),
        c.ciphertext.clone(),
    ))
    .unwrap();
    assert_eq!(c.save(), expected);
}

#[test]
fn payload_wire_form_matches_bincode() {
    let p = InnerPayload { filename: "naïve.txt".to_string(), content: vec![1, 2, 3] };
    let expected = bincode::serialize(&("naïve.txt".to_string(), vec![1u8, 2, 3])).unwrap();
    assert_eq!(p.to_bytes(), expected);
    let back = InnerPayload::from_bytes(&expected).unwrap();
    assert_eq!(back.filename, "naïve.txt");
    assert_eq!(back.content, vec![1, 2, 3]);
}

#[test]
fn load_rejects_unknown_versions_and_short_input() {
    assert_eq!(
        EncryptedFileContainer::load(&[4, 0, 0]).unwrap_err(),
        VaultError::UnsupportedVersion
    );
    assert_eq!(
        EncryptedFileContainer::load(&[5, 0, 0, 0, 1, 2, 3]).unwrap_err(),
        VaultError::UnsupportedVersion
    );
    assert_eq!(
        EncryptedFileContainer::load(&[4, 0, 0, 0, 1, 2, 3]).unwrap_err(),
        VaultError::Malformed
    );
}

#[test]
fn load_rejects_bad_flag_byte() {
    let mk = key();
    let c = encrypt_file_with_master_key(&mk, None, "n", b"abc", None, 3).unwrap();
    let mut bytes = c.save();
    // version, nonce, prefixed tag, nonce, prefixed key, nonce, then the flag
    let at = 4 + 12 + 8 + c.header.encrypted_validation_tag.len() + 12 + 8
        + c.header.encrypted_file_key.len() + 12;
    assert_eq!(bytes[at], 0);
    bytes[at] = 2;
    assert_eq!(EncryptedFileContainer::load(&bytes).unwrap_err(), VaultError::Malformed);
}

#[test]
fn load_leaves_trailing_bytes_alone() {
    let mk = key();
    let c = encrypt_file_with_master_key(&mk, None, "n", b"abc", None, 3).unwrap();
    let mut bytes = c.save();
    bytes.extend_from_slice(&[9, 9, 9]);
    let back = EncryptedFileContainer::load(&bytes).unwrap();
    assert_eq!(back.ciphertext, c.ciphertext);
    let p = decrypt_file_with_master_key(&mk, None, &back).unwrap();
    assert_eq!(p.content, b"abc".to_vec());
}
