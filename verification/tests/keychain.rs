use qre_locker::error::VaultError;
use qre_locker::keychain::{
    build_keychain, change_password, change_password_with, default_kdf_iterations,
    default_kdf_memory, default_kdf_parallelism, draw_keychain_material, init_keychain,
    keychain_exists, open_slot, recover_with, recover_with_code, reset_recovery_code,
    reset_recovery_with, unlock_keychain, KeychainMaterial,
};
use qre_locker::primitives::ids::fresh_uuid;
use qre_locker::primitives::kdf::fresh_salt;
use qre_locker::keys::MasterKey;
use qre_locker::recovery::{check_recovery_code, format_recovery_code};
use qre_locker::state::{check_auth_status, AuthStatus, SessionState};

fn material() -> KeychainMaterial {
    KeychainMaterial {
        vault_id: "00000000-0000-4000-8000-000000000000".to_string(),
        password_salt: "c2FsdHNhbHRzYWx0c2FsdA".to_string(),
        password_nonce: [1u8; 12],
        recovery_groups: [0x00AB, 0xCDEF, 0x1234, 0xFFFF],
        recovery_salt: "b3RoZXJzYWx0b3RoZXJzYQ".to_string(),
        recovery_nonce: [2u8; 12],
    }
}

#[test]
fn kdf_defaults() {
    assert_eq!(default_kdf_memory(), 19456);
    assert_eq!(default_kdf_iterations(), 2);
    assert_eq!(default_kdf_parallelism(), 1);
}

#[test]
fn init_relock_unlock() {
    let (code, mk, store) = init_keychain("correct horse", false).unwrap();
    assert!(check_recovery_code(&code));
    assert_eq!(store.kdf_memory, 19456);
    assert_eq!(store.kdf_iterations, 2);
    assert_eq!(store.kdf_parallelism, 1);
    assert_eq!(store.password_nonce.len(), 12);
    assert_eq!(store.recovery_nonce.len(), 12);
    assert_ne!(store.password_salt, store.recovery_salt);
    assert_eq!(store.vault_id.len(), 36);

    let mut session = SessionState::new();
    assert_eq!(check_auth_status(&session, true), AuthStatus::Locked);
    session.login(mk.duplicate());
    assert_eq!(check_auth_status(&session, true), AuthStatus::Unlocked);
    session.logout();
    assert!(!session.is_unlocked());

    let again = unlock_keychain(Some(&store), "correct horse").unwrap();
    assert_eq!(again.0, mk.0);
    assert_eq!(
        unlock_keychain(Some(&store), "wrong").unwrap_err(),
        VaultError::BadCredential
    );
}

#[test]
fn unlock_without_keychain_needs_setup() {
    assert_eq!(unlock_keychain(None, "pw").unwrap_err(), VaultError::SetupNeeded);
    let session = SessionState::new();
    assert_eq!(check_auth_status(&session, false), AuthStatus::SetupNeeded);
}

#[test]
fn init_refuses_existing_keychain() {
    assert_eq!(init_keychain("pw", true).unwrap_err(), VaultError::KeychainExists);
}

#[test]
fn recovery_sets_new_password_and_keeps_code() {
    let (code, mk, mut store) = init_keychain("correct horse", false).unwrap();
    let recovery_before = (
        store.recovery_salt.clone(),
        store.recovery_nonce.clone(),
        store.encrypted_master_key_recovery.clone(),
    );
    let recovered = recover_with_code(&mut store, &code, "new pw").unwrap();
    assert_eq!(recovered.0, mk.0);
    assert_eq!(unlock_keychain(Some(&store), "new pw").unwrap().0, mk.0);
    assert_eq!(
        unlock_keychain(Some(&store), "correct horse").unwrap_err(),
        VaultError::BadCredential
    );
    // the recovery slot was not rotated
    assert_eq!(store.recovery_salt, recovery_before.0);
    assert_eq!(store.recovery_nonce, recovery_before.1);
    assert_eq!(store.encrypted_master_key_recovery, recovery_before.2);
    let third = recover_with_code(&mut store, &code, "third").unwrap();
    assert_eq!(third.0, mk.0);
    assert_eq!(unlock_keychain(Some(&store), "third").unwrap().0, mk.0);
}

#[test]
fn wrong_recovery_code_changes_nothing() {
    let (_code, _mk, mut store) = init_keychain("pw", false).unwrap();
    let before = store.encrypted_master_key_pass.clone();
    assert_eq!(
        recover_with_code(&mut store, "QRE-0000-0000-0000-0000", "new").unwrap_err(),
        VaultError::BadCredential
    );
    assert_eq!(store.encrypted_master_key_pass, before);
}

#[test]
fn both_slots_hold_the_same_key() {
    let mk = MasterKey([5u8; 32]);
    let (code, store) = build_keychain("pw", &mk, material()).unwrap();
    assert_eq!(code, "QRE-00AB-CDEF-1234-FFFF");
    let by_password = open_slot(
        &store.password_salt,
        &store.password_nonce,
        &store.encrypted_master_key_pass,
        store.kdf_memory,
        store.kdf_iterations,
        store.kdf_parallelism,
        "pw",
    )
    .unwrap();
    let by_code = open_slot(
        &store.recovery_salt,
        &store.recovery_nonce,
        &store.encrypted_master_key_recovery,
        store.kdf_memory,
        store.kdf_iterations,
        store.kdf_parallelism,
        &code,
    )
    .unwrap();
    assert_eq!(by_password.0, [5u8; 32]);
    assert_eq!(by_code.0, [5u8; 32]);
    // sealed master key: 32 bytes and the tag
    assert_eq!(store.encrypted_master_key_pass.len(), 48);
    assert_eq!(store.encrypted_master_key_recovery.len(), 48);
}

#[test]
fn building_is_a_function_of_its_material() {
    let mk = MasterKey([5u8; 32]);
    let (_, a) = build_keychain("pw", &mk, material()).unwrap();
    let (_, b) = build_keychain("pw", &mk, material()).unwrap();
    assert_eq!(a.encrypted_master_key_pass, b.encrypted_master_key_pass);
    assert_eq!(a.encrypted_master_key_recovery, b.encrypted_master_key_recovery);
}

#[test]
fn malformed_salt_is_a_kdf_failure() {
    let mk = MasterKey([5u8; 32]);
    let mut m = material();
    m.password_salt = "!!".to_string();
    assert_eq!(build_keychain("pw", &mk, m).unwrap_err(), VaultError::KdfFailure);
}

#[test]
fn change_password_rewrites_only_the_password_slot() {
    let mk = MasterKey([5u8; 32]);
    let (code, mut store) = build_keychain("old", &mk, material()).unwrap();
    let recovery_before = store.encrypted_master_key_recovery.clone();
    change_password(&mut store, &mk, "new").unwrap();
    assert_eq!(unlock_keychain(Some(&store), "new").unwrap().0, mk.0);
    assert_eq!(unlock_keychain(Some(&store), "old").unwrap_err(), VaultError::BadCredential);
    assert_eq!(store.encrypted_master_key_recovery, recovery_before);
    let mut copy = store;
    assert_eq!(recover_with_code(&mut copy, &code, "x").unwrap().0, mk.0);
}

#[test]
fn change_password_with_bad_salt_changes_nothing() {
    let mk = MasterKey([5u8; 32]);
    let (_, mut store) = build_keychain("old", &mk, material()).unwrap();
    let before = store.encrypted_master_key_pass.clone();
    let salt_before = store.password_salt.clone();
    assert_eq!(
        change_password_with(&mut store, &mk, "new", "?".to_string(), [9u8; 12]).unwrap_err(),
        VaultError::KdfFailure
    );
    assert_eq!(store.encrypted_master_key_pass, before);
    assert_eq!(store.password_salt, salt_before);
}

#[test]
fn recover_with_given_material() {
    let mk = MasterKey([5u8; 32]);
    let (code, mut store) = build_keychain("old", &mk, material()).unwrap();
    let key = recover_with(&mut store, &code, "new", "bmV3c2FsdG5ld3NhbHRuZQ".to_string(), [7u8; 12])
        .unwrap();
    assert_eq!(key.0, mk.0);
    assert_eq!(store.password_salt, "bmV3c2FsdG5ld3NhbHRuZQ");
    assert_eq!(store.password_nonce, vec![7u8; 12]);
    assert_eq!(unlock_keychain(Some(&store), "new").unwrap().0, mk.0);
}

#[test]
fn rotating_the_recovery_code() {
    let (old_code, mk, mut store) = init_keychain("pw", false).unwrap();
    let pass_before = store.encrypted_master_key_pass.clone();
    let new_code = reset_recovery_code(&mut store, &mk).unwrap();
    assert!(check_recovery_code(&new_code));
    assert_eq!(store.encrypted_master_key_pass, pass_before);
    assert_eq!(unlock_keychain(Some(&store), "pw").unwrap().0, mk.0);
    if new_code != old_code {
        assert_eq!(
            recover_with_code(&mut store, &old_code, "x").unwrap_err(),
            VaultError::BadCredential
        );
    }
    assert_eq!(recover_with_code(&mut store, &new_code, "y").unwrap().0, mk.0);
}

#[test]
fn rotating_with_given_groups() {
    let mk = MasterKey([5u8; 32]);
    let (_, mut store) = build_keychain("pw", &mk, material()).unwrap();
    let code = reset_recovery_with(
        &mut store,
        &mk,
        [1, 2, 3, 0xabcd],
        "bmV3c2FsdG5ld3NhbHRuZQ".to_string(),
        [8u8; 12],
    )
    .unwrap();
    assert_eq!(code, "QRE-0001-0002-0003-ABCD");
    assert_eq!(recover_with_code(&mut store, &code, "z").unwrap().0, mk.0);
}

#[test]
fn malformed_slots_are_told_apart() {
    let mk = MasterKey([5u8; 32]);
    let (_, mut store) = build_keychain("pw", &mk, material()).unwrap();
    store.password_nonce = vec![1u8; 11];
    assert_eq!(unlock_keychain(Some(&store), "pw").unwrap_err(), VaultError::Malformed);
    store.password_nonce = vec![1u8; 12];
    store.password_salt = "x".to_string();
    assert_eq!(unlock_keychain(Some(&store), "pw").unwrap_err(), VaultError::KdfFailure);
}

#[test]
fn recovery_code_shape() {
    assert_eq!(format_recovery_code(&[0, 0, 0, 0]), "QRE-0000-0000-0000-0000");
    assert_eq!(format_recovery_code(&[0xFFFF, 0x0A0B, 0x9, 0x10]), "QRE-FFFF-0A0B-0009-0010");
    assert!(check_recovery_code("QRE-FFFF-0A0B-0009-0010"));
    assert!(!check_recovery_code("QRE-ffff-0A0B-0009-0010"));
    assert!(!check_recovery_code("QRE-FFFF-0A0B-0009-001"));
    assert!(!check_recovery_code("QRX-FFFF-0A0B-0009-0010"));
    assert!(!check_recovery_code("QRE-FFFF_0A0B-0009-0010"));
    assert!(!check_recovery_code("QRE-FFFF-0A0B-0009-00100"));
    assert!(!check_recovery_code("QRE-FFFG-0A0B-0009-0010"));
    assert!(!check_recovery_code(""));
}

#[test]
fn keychain_presence() {
    assert!(keychain_exists(Some(true)));
    assert!(!keychain_exists(Some(false)));
    assert!(!keychain_exists(None));
}

#[test]
fn session_hands_out_copies() {
    let mut session = SessionState::new();
    assert_eq!(session.get_mk().unwrap_err(), VaultError::SessionLocked);
    session.set_mk(Some(MasterKey([3u8; 32])));
    assert!(session.is_unlocked());
    let mut copy = session.get_mk().unwrap();
    copy.erase();
    assert_eq!(copy.0, [0u8; 32]);
    assert_eq!(session.get_mk().unwrap().0, [3u8; 32]);
    session.set_mk(None);
    assert_eq!(session.get_mk().unwrap_err(), VaultError::SessionLocked);
}

fn looks_like_a_salt(salt: &str) -> bool {
    salt.len() == 22
        && salt.chars().all(|c| c.is_ascii_alphanumeric() || c == '+' || c == '/')
}

fn looks_like_an_identifier(id: &str) -> bool {
    let chars: Vec<char> = id.chars().collect();
    chars.len() == 36
        && chars.iter().enumerate().all(|(i, c)| {
            if i == 8 || i == 13 || i == 18 || i == 23 {
                *c == '-'
            } else {
                c.is_ascii_digit() || ('a'..='f').contains(c)
            }
        })
        && chars[14] == '4'
        && ['8', '9', 'a', 'b'].contains(&chars[19])
}

#[test]
fn fresh_salts_have_their_shape() {
    for _ in 0..200 {
        let salt = fresh_salt().unwrap();
        assert!(looks_like_a_salt(&salt), "{}", salt);
    }
    assert_ne!(fresh_salt().unwrap(), fresh_salt().unwrap());
}

#[test]
fn fresh_identifiers_have_their_shape() {
    for _ in 0..200 {
        let id = fresh_uuid().unwrap();
        assert!(looks_like_an_identifier(&id), "{}", id);
    }
    assert_ne!(fresh_uuid().unwrap(), fresh_uuid().unwrap());
}

#[test]
fn drawn_material_has_its_shape() {
    let a = draw_keychain_material().unwrap();
    let b = draw_keychain_material().unwrap();
    for m in [&a, &b] {
        assert!(looks_like_an_identifier(&m.vault_id));
        assert!(looks_like_a_salt(&m.password_salt));
        assert!(looks_like_a_salt(&m.recovery_salt));
        assert_ne!(m.password_salt, m.recovery_salt);
        assert_ne!(m.password_nonce, m.recovery_nonce);
    }
    assert_ne!(a.vault_id, b.vault_id);
    assert_ne!(a.password_salt, b.password_salt);
    // what was drawn builds a keychain
    let mk = MasterKey([6u8; 32]);
    let (code, store) = build_keychain("pw", &mk, a).unwrap();
    assert!(check_recovery_code(&code));
    assert_eq!(unlock_keychain(Some(&store), "pw").unwrap().0, mk.0);
}

#[test]
fn generated_master_keys_differ() {
    let a = MasterKey::generate().unwrap();
    let b = MasterKey::generate().unwrap();
    assert_ne!(a.0, b.0);
    assert_ne!(a.0, [0u8; 32]);
}

#[test]
fn every_slot_gets_a_salt_of_its_own() {
    let (_code, mk, mut store) = init_keychain("pw", false).unwrap();
    assert!(looks_like_an_identifier(&store.vault_id), "{}", store.vault_id);
    assert!(looks_like_a_salt(&store.password_salt), "{}", store.password_salt);
    assert!(looks_like_a_salt(&store.recovery_salt), "{}", store.recovery_salt);
    assert_ne!(store.password_salt, store.recovery_salt);

    let first = store.password_salt.clone();
    change_password(&mut store, &mk, "second").unwrap();
    assert!(looks_like_a_salt(&store.password_salt));
    assert_eq!(store.password_nonce.len(), 12);
    assert_ne!(store.password_salt, first);

    let before = store.recovery_salt.clone();
    let code = reset_recovery_code(&mut store, &mk).unwrap();
    assert!(looks_like_a_salt(&store.recovery_salt));
    assert_eq!(store.recovery_nonce.len(), 12);
    assert_ne!(store.recovery_salt, before);

    let second = store.password_salt.clone();
    recover_with_code(&mut store, &code, "third").unwrap();
    assert!(looks_like_a_salt(&store.password_salt));
    assert_eq!(store.password_nonce.len(), 12);
    assert_ne!(store.password_salt, second);
}
