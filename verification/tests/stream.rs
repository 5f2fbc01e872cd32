use aes_gcm::aead::{Aead, KeyInit, Payload};
use qre_locker::commands::lock_bytes;
use qre_locker::compression::CompressionMode;
use rand::{RngCore, SeedableRng};
use qre_locker::crypto_stream::{
    check_chunk_size, decrypt_stream, encrypt_stream, seal_stream, split_stream, StreamMaterial,
};
use qre_locker::error::VaultError;
use qre_locker::keys::MasterKey;
use qre_locker::primitives::hash::digest;

fn key() -> MasterKey {
    MasterKey([9u8; 32])
}

fn material() -> StreamMaterial {
    StreamMaterial {
        file_key: [1u8; 32],
        stream_salt: [2u8; 8],
        key_wrapping_nonce: [3u8; 12],
        validation_nonce: [4u8; 12],
    }
}

fn noise(len: usize) -> Vec<u8> {
    // bytes that do not compress away, so that streams have several chunks
    let mut state: u32 = 0x1234_5678;
    let mut out = Vec::with_capacity(len);
    for _ in 0..len {
        state ^= state << 13;
        state ^= state >> 17;
        state ^= state << 5;
        out.push((state >> 24) as u8);
    }
    out
}

/// The places where the frames of the body start, and where the terminator starts.
fn frame_starts(stream: &[u8]) -> (Vec<usize>, usize) {
    let (_, mut pos) = split_stream(stream).unwrap();
    let mut starts = Vec::new();
    loop {
        let len = u32::from_be_bytes([stream[pos], stream[pos + 1], stream[pos + 2], stream[pos + 3]]);
        if len == 0xFFFF_FFFF {
            return (starts, pos);
        }
        starts.push(pos);
        pos += 4 + len as usize;
    }
}

#[test]
fn stream_round_trip_at_each_chunk_size() {
    let mk = key();
    let payload = noise(200_000);
    for chunk_size in [64 * 1024u32, 1024 * 1024, 16 * 1024 * 1024] {
        let bytes = encrypt_stream(&mk, None, "big.bin", &payload, None, 3, chunk_size).unwrap();
        let p = decrypt_stream(&mk, None, &bytes).unwrap();
        assert_eq!(p.filename, "big.bin");
        assert_eq!(p.content.len(), payload.len());
        assert_eq!(digest(&p.content), digest(&payload));
        assert_eq!(p.content, payload);
    }
}

#[test]
fn stream_round_trip_many_chunks() {
    let mk = key();
    let payload = noise(6 * 1024 * 1024 + 123);
    let known = digest(&payload);
    let bytes = encrypt_stream(&mk, None, "large.bin", &payload, None, 1, 1024 * 1024).unwrap();
    let (starts, _) = frame_starts(&bytes);
    assert!(starts.len() >= 6);
    let p = decrypt_stream(&mk, None, &bytes).unwrap();
    assert_eq!(p.content.len(), payload.len());
    assert_eq!(digest(&p.content), known);
}

#[test]
fn stream_round_trip_small_chunks() {
    let mk = key();
    let payload = noise(1000);
    for chunk_size in [1u32, 2, 16, 256, 1024] {
        let bytes = encrypt_stream(&mk, None, "s.bin", &payload, None, 0, chunk_size).unwrap();
        let p = decrypt_stream(&mk, None, &bytes).unwrap();
        assert_eq!(p.content, payload);
    }
}

#[test]
fn stream_round_trip_empty_payload() {
    let mk = key();
    let bytes = encrypt_stream(&mk, None, "empty", &[], None, 3, 1024).unwrap();
    let p = decrypt_stream(&mk, None, &bytes).unwrap();
    assert_eq!(p.filename, "empty");
    assert!(p.content.is_empty());
}

#[test]
fn stream_layout() {
    let mk = key();
    let payload = noise(300);
    let bytes = seal_stream(&mk, None, "f", &payload, 3, 64, &material()).unwrap();
    // version, little-endian
    assert_eq!(&bytes[0..4], &[5, 0, 0, 0]);
    // header length, big-endian
    let header_len = u64::from_be_bytes(bytes[4..12].try_into().unwrap()) as usize;
    let (header, start) = split_stream(&bytes).unwrap();
    assert_eq!(start, 12 + header_len);
    assert_eq!(header.chunk_size, 64);
    assert_eq!(header.stream_salt, [2u8; 8]);
    assert_eq!(header.original_length, Some(300));
    assert_eq!(header.filename, "f");
    assert!(!header.uses_keyfile);
    // sealing is a function of its inputs
    let again = seal_stream(&mk, None, "f", &payload, 3, 64, &material()).unwrap();
    assert_eq!(bytes, again);
    // every chunk but the last holds 64 bytes and a 16-byte tag
    let (starts, end) = frame_starts(&bytes);
    assert!(starts.len() >= 4);
    for (i, at) in starts.iter().enumerate() {
        let len = u32::from_be_bytes(bytes[*at..*at + 4].try_into().unwrap());
        if i + 1 < starts.len() {
            assert_eq!(len, 64 + 16);
        } else {
            assert!(len >= 16 && len <= 64 + 16);
        }
    }
    // terminator: the mark and the final flag, and nothing after
    assert_eq!(&bytes[end..], &[0xff, 0xff, 0xff, 0xff, 0x01]);
}

#[test]
fn chunk_nonce_is_salt_and_index() {
    // a chunk sealed by hand at index 1 under salt || be32(1) is what the stream holds
    let mk = key();
    let m = material();
    let payload = noise(200);
    let bytes = seal_stream(&mk, None, "f", &payload, 0, 64, &m).unwrap();
    let (header, _) = split_stream(&bytes).unwrap();
    let (starts, _) = frame_starts(&bytes);
    let at = starts[1];
    let len = u32::from_be_bytes(bytes[at..at + 4].try_into().unwrap()) as usize;
    let sealed = &bytes[at + 4..at + 4 + len];
    let mut nonce = [0u8; 12];
    nonce[..8].copy_from_slice(&m.stream_salt);
    nonce[8..].copy_from_slice(&1u32.to_be_bytes());
    let mut aad = Vec::new();
    aad.extend_from_slice(&1u32.to_be_bytes());
    aad.push(0);
    aad.extend_from_slice(&header.encrypted_validation_tag[..16]);
    let cipher = aes_gcm::Aes256Gcm::new((&m.file_key).into());
    let plain = cipher.decrypt((&nonce).into(), Payload { msg: sealed, aad: &aad }).unwrap();
    assert_eq!(plain.len(), 64);
}

#[test]
fn truncation_is_never_silent() {
    let mk = key();
    let payload = noise(500);
    let bytes = seal_stream(&mk, None, "t.bin", &payload, 3, 128, &material()).unwrap();
    for cut in 0..bytes.len() {
        let err = decrypt_stream(&mk, None, &bytes[..cut]).unwrap_err();
        assert!(
            err == VaultError::ChunkAuthFailure || err == VaultError::UnsupportedVersion,
            "cut at {} gave {:?}",
            cut,
            err
        );
        if cut < 4 {
            assert_eq!(err, VaultError::UnsupportedVersion);
        }
    }
}

#[test]
fn swapped_chunks_fail() {
    let mk = key();
    let payload = noise(1000);
    let bytes = seal_stream(&mk, None, "t.bin", &payload, 0, 128, &material()).unwrap();
    let (starts, end) = frame_starts(&bytes);
    assert!(starts.len() >= 4);
    let frame = |i: usize| -> &[u8] {
        let stop = if i + 1 < starts.len() { starts[i + 1] } else { end };
        &bytes[starts[i]..stop]
    };
    for a in 0..starts.len() {
        for b in a + 1..starts.len() {
            let mut swapped = bytes[..starts[0]].to_vec();
            for i in 0..starts.len() {
                let pick = if i == a { b } else if i == b { a } else { i };
                swapped.extend_from_slice(frame(pick));
            }
            swapped.extend_from_slice(&bytes[end..]);
            assert_eq!(swapped.len(), bytes.len());
            assert_eq!(
                decrypt_stream(&mk, None, &swapped).unwrap_err(),
                VaultError::ChunkAuthFailure
            );
        }
    }
}

#[test]
fn flipped_byte_in_chunk_fails() {
    let mk = key();
    let payload = noise(1000);
    let mut bytes = seal_stream(&mk, None, "t.bin", &payload, 3, 256, &material()).unwrap();
    let (starts, end) = frame_starts(&bytes);
    let mid = (starts[0] + 4 + end) / 2;
    bytes[mid] ^= 0x01;
    let err = decrypt_stream(&mk, None, &bytes).unwrap_err();
    assert_eq!(err, VaultError::ChunkAuthFailure);
}

#[test]
fn dropped_last_chunk_fails() {
    let mk = key();
    let payload = noise(1000);
    let bytes = seal_stream(&mk, None, "t.bin", &payload, 0, 128, &material()).unwrap();
    let (starts, end) = frame_starts(&bytes);
    let last = *starts.last().unwrap();
    let mut shorter = bytes[..last].to_vec();
    shorter.extend_from_slice(&bytes[end..]);
    assert_eq!(decrypt_stream(&mk, None, &shorter).unwrap_err(), VaultError::ChunkAuthFailure);
}

#[test]
fn trailing_bytes_are_refused() {
    let mk = key();
    let mut bytes = seal_stream(&mk, None, "t.bin", b"abc", 3, 1024, &material()).unwrap();
    bytes.push(0);
    assert_eq!(decrypt_stream(&mk, None, &bytes).unwrap_err(), VaultError::TrailingData);
}

#[test]
fn wrong_final_flag_is_refused() {
    let mk = key();
    let mut bytes = seal_stream(&mk, None, "t.bin", b"abc", 3, 1024, &material()).unwrap();
    let last = bytes.len() - 1;
    assert_eq!(bytes[last], 1);
    bytes[last] = 0;
    assert_eq!(decrypt_stream(&mk, None, &bytes).unwrap_err(), VaultError::ChunkAuthFailure);
}

#[test]
fn stream_keyfile_binding() {
    let mk = key();
    let keyfile = digest(&[0u8; 4096]);
    let other = digest(&[1u8; 4096]);
    let bytes = encrypt_stream(&mk, Some(&keyfile), "k", b"secret", None, 3, 1024).unwrap();
    assert_eq!(decrypt_stream(&mk, None, &bytes).unwrap_err(), VaultError::KeyfileRequired);
    assert_eq!(decrypt_stream(&mk, Some(&keyfile), &bytes).unwrap().content, b"secret".to_vec());
    assert_eq!(
        decrypt_stream(&mk, Some(&other), &bytes).unwrap_err(),
        VaultError::BadCredential
    );
}

#[test]
fn stream_wrong_key_is_bad_credential() {
    let bytes = encrypt_stream(&key(), None, "k", b"secret", None, 3, 1024).unwrap();
    let wrong = MasterKey([10u8; 32]);
    assert_eq!(decrypt_stream(&wrong, None, &bytes).unwrap_err(), VaultError::BadCredential);
}

#[test]
fn stream_versions() {
    let mk = key();
    let mut bytes = seal_stream(&mk, None, "t.bin", b"abc", 3, 1024, &material()).unwrap();
    bytes[0] = 4;
    assert_eq!(decrypt_stream(&mk, None, &bytes).unwrap_err(), VaultError::UnsupportedVersion);
    bytes[0] = 6;
    assert_eq!(decrypt_stream(&mk, None, &bytes).unwrap_err(), VaultError::UnsupportedVersion);
    assert_eq!(decrypt_stream(&mk, None, &[]).unwrap_err(), VaultError::UnsupportedVersion);
}

#[test]
fn stored_length_is_checked() {
    let mk = key();
    let bytes = seal_stream(&mk, None, "t", b"abcdef", 3, 1024, &material()).unwrap();
    let (mut header, start) = split_stream(&bytes).unwrap();
    header.original_length = Some(7);
    let hb = header.to_bytes();
    let mut forged = vec![5, 0, 0, 0];
    forged.extend_from_slice(&(hb.len() as u64).to_be_bytes());
    forged.extend_from_slice(&hb);
    forged.extend_from_slice(&bytes[start..]);
    assert_eq!(decrypt_stream(&mk, None, &forged).unwrap_err(), VaultError::IntegrityFailure);
    header.original_length = None;
    let hb = header.to_bytes();
    let mut unknown = vec![5, 0, 0, 0];
    unknown.extend_from_slice(&(hb.len() as u64).to_be_bytes());
    unknown.extend_from_slice(&hb);
    unknown.extend_from_slice(&bytes[start..]);
    assert_eq!(decrypt_stream(&mk, None, &unknown).unwrap().content, b"abcdef".to_vec());
}

#[test]
fn chunk_sizes() {
    assert!(check_chunk_size(1));
    assert!(check_chunk_size(64 * 1024));
    assert!(check_chunk_size(1024 * 1024));
    assert!(check_chunk_size(16 * 1024 * 1024));
    assert!(check_chunk_size(0x4000_0000));
    assert!(!check_chunk_size(0));
    assert!(!check_chunk_size(3));
    assert!(!check_chunk_size(1000));
    assert!(!check_chunk_size(0x8000_0000));
    let mk = key();
    assert_eq!(
        encrypt_stream(&mk, None, "a", b"abc", None, 3, 1000).unwrap_err(),
        VaultError::InvalidChunkSize
    );
}

#[test]
fn seeded_streams_share_salt_and_nonces() {
    let mk = key();
    let seed = [42u8; 32];
    let a = encrypt_stream(&mk, None, "a", b"abc", Some(seed), 3, 1024).unwrap();
    let b = encrypt_stream(&mk, None, "a", b"abc", Some(seed), 3, 1024).unwrap();
    let (ha, _) = split_stream(&a).unwrap();
    let (hb, _) = split_stream(&b).unwrap();
    assert_eq!(ha.stream_salt, hb.stream_salt);
    assert_eq!(ha.key_wrapping_nonce, hb.key_wrapping_nonce);
    assert_eq!(ha.validation_nonce, hb.validation_nonce);
    // the file key comes from the operating system, so the sealed bytes differ
    assert_ne!(a, b);
}

#[test]
fn a_seed_gives_the_salt_and_the_nonces() {
    let mk = key();
    let seed = [42u8; 32];
    let mut stream = [0u8; 32];
    rand_chacha::ChaCha20Rng::from_seed(seed).fill_bytes(&mut stream);
    let sealed = encrypt_stream(&mk, None, "a", b"abc", Some(seed), 3, 1024).unwrap();
    let locked = lock_bytes(&mk, None, "a", b"abc", Some(seed), CompressionMode::Auto, 1024).unwrap();
    for bytes in [sealed, locked] {
        let (h, _) = split_stream(&bytes).unwrap();
        assert_eq!(h.stream_salt[..], stream[0..8]);
        assert_eq!(h.key_wrapping_nonce[..], stream[8..20]);
        assert_eq!(h.validation_nonce[..], stream[20..32]);
    }
    // without a seed they come from the operating system
    let free = encrypt_stream(&mk, None, "a", b"abc", None, 3, 1024).unwrap();
    let (h, _) = split_stream(&free).unwrap();
    assert_ne!(h.stream_salt[..], stream[0..8]);
}
