use qre_locker::secure_rng::SecureEngine;
use rand::{RngCore, SeedableRng};
use rand_chacha::ChaCha20Rng;

#[test]
fn test_prng_determinism() {
    // If we seed two engines with the same seed, they MUST produce the same output.
    let seed = [42u8; 32];
    let mut eng1 = SecureEngine::new(seed);
    let mut eng2 = SecureEngine::new(seed);

    let mut out1 = [0u8; 16];
    let mut out2 = [0u8; 16];

    eng1.fill_bytes(&mut out1);
    eng2.fill_bytes(&mut out2);

    assert_eq!(out1, out2);
}

#[test]
fn test_prng_uniqueness() {
    // If we seed with different seeds, outputs MUST differ.
    let seed1 = [1u8; 32];
    let seed2 = [2u8; 32];

    let mut eng1 = SecureEngine::new(seed1);
    let mut eng2 = SecureEngine::new(seed2);

    let mut out1 = [0u8; 32];
    let mut out2 = [0u8; 32];

    eng1.fill_bytes(&mut out1);
    eng2.fill_bytes(&mut out2);

    assert_ne!(out1, out2);
}

#[test]
fn engine_follows_the_generator_it_stands_for() {
    let seed = [7u8; 32];
    let mut engine = SecureEngine::new(seed);
    let mut reference = ChaCha20Rng::from_seed(seed);
    for len in [16usize, 5, 32, 1, 0, 64, 7, 300] {
        let mut got = vec![0u8; len];
        let mut want = vec![0u8; len];
        engine.fill_bytes(&mut got);
        reference.fill_bytes(&mut want);
        assert_eq!(got, want, "request of {} bytes", len);
    }
    let key = engine.gen_aes_key();
    let mut want = [0u8; 32];
    reference.fill_bytes(&mut want);
    assert_eq!(key, want);
}

#[test]
fn engine_requests_join_on_word_ends() {
    let seed = [9u8; 32];
    let mut whole = SecureEngine::new(seed);
    let mut parts = SecureEngine::new(seed);
    let all = whole.next_bytes(36);
    let mut joined = parts.next_bytes(12);
    joined.extend(parts.next_bytes(12));
    joined.extend(parts.next_bytes(12));
    assert_eq!(all, joined);
    assert_ne!(&all[0..12], &all[12..24]);
}

#[test]
fn erased_engine_forgets_its_seed() {
    let mut engine = SecureEngine::new([3u8; 32]);
    let first = engine.next_bytes(8);
    engine.erase();
    let mut zero = SecureEngine::new([0u8; 32]);
    assert_eq!(engine.next_bytes(8), zero.next_bytes(8));
    assert_ne!(first, SecureEngine::new([0u8; 32]).next_bytes(8));
}
