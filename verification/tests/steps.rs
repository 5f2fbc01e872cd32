use qre_locker::commands::{detect_version, plan_lock, unlock_bytes, EnvelopeKind};
use qre_locker::compression::{is_already_compressed, CompressionMode};
use qre_locker::crypto_stream::{
    decrypt_stream, put_terminator, seal_stream, StreamMaterial,
};
use qre_locker::error::VaultError;
use qre_locker::keychain::groups_from_bytes;
use qre_locker::keys::MasterKey;
use qre_locker::packer::{zip_directory_to_memory, WalkedEntry, WalkedKind};
use qre_locker::paths::{file_name_of, get_unique_path, sibling_path};
use qre_locker::primitives::compress::{compress_data, decompress_data};
use qre_locker::primitives::ids::uuid_from_bytes;
use qre_locker::primitives::kdf::{derive_kek, salt_from_bytes};
use qre_locker::stream_steps::{
    begin_stream, chunk_length, close_stream, header_length, open_frame, open_header, read_frame,
    seal_next,
};

fn names(list: &[&str]) -> Vec<String> {
    list.iter().map(|s| s.to_string()).collect()
}

fn key() -> MasterKey {
    MasterKey([9u8; 32])
}

fn material() -> StreamMaterial {
    StreamMaterial {
        file_key: [1u8; 32],
        stream_salt: [2u8; 8],
        key_wrapping_nonce: [3u8; 12],
        validation_nonce: [4u8; 12],
    }
}

fn noise(len: usize) -> Vec<u8> {
    let mut state: u32 = 0x0bad_5eed;
    let mut out = Vec::with_capacity(len);
    for _ in 0..len {
        state ^= state << 13;
        state ^= state >> 17;
        state ^= state << 5;
        out.push((state >> 24) as u8);
    }
    out
}

/// A file that is read from front to back: each read gives what was asked
/// for, or less at the end.
struct Reader<'a> {
    bytes: &'a [u8],
    pos: usize,
}

impl<'a> Reader<'a> {
    fn read(&mut self, n: usize) -> &'a [u8] {
        let end = self.pos.saturating_add(n).min(self.bytes.len());
        let out = &self.bytes[self.pos..end];
        self.pos = end;
        out
    }
}

/// Opens a stream as a program does that reads it piece by piece.
fn open_in_steps(mk: &MasterKey, keyfile: Option<&[u8]>, bytes: &[u8]) -> Result<(String, Vec<u8>), VaultError> {
    let mut file = Reader { bytes, pos: 0 };
    let len = header_length(file.read(12))?;
    let opened = open_header(mk, keyfile, len, file.read(len as usize))?;
    let mut compressed = Vec::new();
    let mut prefix = file.read(4);
    let mut index = 0u32;
    loop {
        let n = chunk_length(prefix)?;
        let sealed = file.read(n as usize);
        prefix = file.read(4);
        let (plain, next) = read_frame(
            &opened.file_key,
            &opened.header.stream_salt,
            &opened.tag,
            index,
            n,
            sealed,
            prefix,
        )?;
        compressed.extend(plain);
        match next {
            Some(i) => index = i,
            None => break,
        }
    }
    let after_mark = file.read(2);
    close_stream(after_mark, None, 0)?;
    let data = decompress_data(&compressed).map_err(|_| VaultError::Malformed)?;
    close_stream(after_mark, opened.header.original_length, data.len() as u64)?;
    Ok((opened.header.filename, data))
}

/// Seals a payload as a program does that writes it piece by piece.
fn seal_in_steps(
    mk: &MasterKey,
    keyfile: Option<&[u8]>,
    name: &str,
    data: &[u8],
    level: i32,
    chunk_size: u32,
    m: &StreamMaterial,
) -> Result<Vec<u8>, VaultError> {
    let begun = begin_stream(mk, keyfile, name, data.len() as u64, chunk_size, m)?;
    let compressed = compress_data(data, level)?;
    let mut out = begun.start;
    let size = chunk_size as usize;
    let mut pos = 0usize;
    let mut index = 0u32;
    loop {
        let more = compressed.len() - pos > size;
        let end = if more { pos + size } else { compressed.len() };
        let (frame, next) = seal_next(
            &m.file_key,
            &m.stream_salt,
            &begun.tag,
            index,
            &compressed[pos..end],
            more,
        )?;
        out.extend(frame);
        pos = end;
        match next {
            Some(i) => index = i,
            None => break,
        }
    }
    put_terminator(&mut out);
    Ok(out)
}

#[test]
fn steps_seal_what_sealing_at_once_seals() {
    let mk = key();
    let m = material();
    for (len, size) in [(0usize, 1024u32), (10, 1), (1024, 1024), (5000, 1024), (4096, 256), (70_000, 65_536)] {
        let data = noise(len);
        let whole = seal_stream(&mk, Some(b"kf"), "n.bin", &data, 3, size, &m).unwrap();
        let stepped = seal_in_steps(&mk, Some(b"kf"), "n.bin", &data, 3, size, &m).unwrap();
        assert_eq!(whole, stepped, "{} bytes in chunks of {}", len, size);
    }
    assert_eq!(
        seal_in_steps(&mk, None, "n", b"x", 3, 1000, &m).unwrap_err(),
        VaultError::InvalidChunkSize
    );
    assert_eq!(begin_stream(&mk, None, "n", 1, 0, &m).err(), Some(VaultError::InvalidChunkSize));
}

#[test]
fn steps_open_what_opening_at_once_opens() {
    let mk = key();
    let m = material();
    let data = noise(3000);
    let stream = seal_stream(&mk, None, "n.bin", &data, 3, 1024, &m).unwrap();
    let (name, content) = open_in_steps(&mk, None, &stream).unwrap();
    assert_eq!(name, "n.bin");
    assert_eq!(content, data);
    let at_once = decrypt_stream(&mk, None, &stream).unwrap();
    assert_eq!(at_once.content, content);
    // cut anywhere, the two readers fail alike
    for cut in 0..stream.len() {
        let stepped = open_in_steps(&mk, None, &stream[..cut]).unwrap_err();
        let whole = decrypt_stream(&mk, None, &stream[..cut]).unwrap_err();
        assert_eq!(stepped, whole, "cut at {}", cut);
    }
    let mut longer = stream.clone();
    longer.push(0);
    assert_eq!(open_in_steps(&mk, None, &longer).unwrap_err(), VaultError::TrailingData);
    let mut flagged = stream.clone();
    let last = flagged.len() - 1;
    flagged[last] = 0;
    assert_eq!(open_in_steps(&mk, None, &flagged).unwrap_err(), VaultError::ChunkAuthFailure);
    let mut damaged = stream.clone();
    let mid = damaged.len() - 40;
    damaged[mid] ^= 0x10;
    assert_eq!(open_in_steps(&mk, None, &damaged).unwrap_err(), VaultError::ChunkAuthFailure);
    assert_eq!(
        decrypt_stream(&mk, None, &damaged).unwrap_err(),
        VaultError::ChunkAuthFailure
    );
    assert_eq!(
        open_in_steps(&MasterKey([8u8; 32]), None, &stream).unwrap_err(),
        VaultError::BadCredential
    );
    let with_keyfile = seal_stream(&mk, Some(b"kf"), "n.bin", &data, 3, 1024, &m).unwrap();
    assert_eq!(open_in_steps(&mk, None, &with_keyfile).unwrap_err(), VaultError::KeyfileRequired);
    assert_eq!(open_in_steps(&mk, Some(b"kf"), &with_keyfile).unwrap().1, data);
}

#[test]
fn start_of_a_stream() {
    assert_eq!(header_length(&[]), Err(VaultError::UnsupportedVersion));
    assert_eq!(header_length(&[5, 0, 0]), Err(VaultError::UnsupportedVersion));
    assert_eq!(header_length(&[4, 0, 0, 0, 0, 0, 0, 0, 0, 0, 0, 9]), Err(VaultError::UnsupportedVersion));
    assert_eq!(header_length(&[5, 0, 0, 0, 0, 0, 0, 0, 0, 0, 0]), Err(VaultError::ChunkAuthFailure));
    assert_eq!(header_length(&[5, 0, 0, 0, 0, 0, 0, 0, 0, 0, 1, 2]), Ok(258));
    let mk = key();
    assert_eq!(open_header(&mk, None, 5, &[1, 2, 3]).err(), Some(VaultError::ChunkAuthFailure));
    assert_eq!(open_header(&mk, None, 3, &[1, 2, 3]).err(), Some(VaultError::Malformed));
}

#[test]
fn single_steps() {
    assert_eq!(chunk_length(&[0, 0, 1, 2]), Ok(258));
    assert_eq!(chunk_length(&[0, 0, 1]), Err(VaultError::ChunkAuthFailure));
    assert_eq!(chunk_length(&[0xff, 0xff, 0xff, 0xff]), Err(VaultError::ChunkAuthFailure));
    assert_eq!(chunk_length(&[0xff, 0xff, 0xff, 0xfe]), Ok(0xffff_fffe));

    assert_eq!(close_stream(&[1], None, 7), Ok(()));
    assert_eq!(close_stream(&[1], Some(7), 7), Ok(()));
    assert_eq!(close_stream(&[1], Some(7), 8), Err(VaultError::IntegrityFailure));
    assert_eq!(close_stream(&[], Some(7), 7), Err(VaultError::ChunkAuthFailure));
    assert_eq!(close_stream(&[0], None, 0), Err(VaultError::ChunkAuthFailure));
    assert_eq!(close_stream(&[1, 0], None, 0), Err(VaultError::TrailingData));
    assert_eq!(close_stream(&[1, 0], Some(1), 0), Err(VaultError::TrailingData));

    let fk = [7u8; 32];
    let salt = [6u8; 8];
    let tag = [5u8; 16];
    let (inner, next) = seal_next(&fk, &salt, &tag, 3, b"abc", true).unwrap();
    assert_eq!(next, Some(4));
    assert_eq!(inner.len(), 4 + 3 + 16);
    assert_eq!(&inner[..4], &[0, 0, 0, 19]);
    let (last, none) = seal_next(&fk, &salt, &tag, 3, b"abc", false).unwrap();
    assert_eq!(none, None);
    assert_ne!(inner, last);
    assert_eq!(
        seal_next(&fk, &salt, &tag, u32::MAX, b"abc", true).unwrap_err(),
        VaultError::SizeLimitExceeded
    );
    assert_eq!(seal_next(&fk, &salt, &tag, u32::MAX, b"abc", false).unwrap().1, None);

    // a chunk opens only at its place and with its flag
    assert_eq!(open_frame(&fk, &salt, &tag, 3, &inner[4..], 19), Ok((b"abc".to_vec(), false)));
    assert_eq!(open_frame(&fk, &salt, &tag, 3, &last[4..], 0xffff_ffff), Ok((b"abc".to_vec(), true)));
    assert_eq!(
        open_frame(&fk, &salt, &tag, 3, &inner[4..], 0xffff_ffff),
        Err(VaultError::ChunkAuthFailure)
    );
    assert_eq!(open_frame(&fk, &salt, &tag, 4, &inner[4..], 19), Err(VaultError::ChunkAuthFailure));
    assert_eq!(
        read_frame(&fk, &salt, &tag, 3, 19, &inner[4..], &[0, 0, 0, 19]),
        Ok((b"abc".to_vec(), Some(4)))
    );
    assert_eq!(
        read_frame(&fk, &salt, &tag, 3, 19, &last[4..], &[0xff, 0xff, 0xff, 0xff]),
        Ok((b"abc".to_vec(), None))
    );
    assert_eq!(
        read_frame(&fk, &salt, &tag, 3, 20, &inner[4..], &[0, 0, 0, 19]),
        Err(VaultError::ChunkAuthFailure)
    );
    assert_eq!(
        read_frame(&fk, &salt, &tag, 3, 19, &inner[4..], &[0, 0, 0]),
        Err(VaultError::ChunkAuthFailure)
    );
    let (at_end, _) = seal_next(&fk, &salt, &tag, u32::MAX, b"abc", false).unwrap();
    assert_eq!(
        read_frame(&fk, &salt, &tag, u32::MAX, 19, &at_end[4..], &[0xff, 0xff, 0xff, 0xff]),
        Ok((b"abc".to_vec(), None))
    );
}

#[test]
fn separators_at_the_end_of_a_path() {
    assert!(is_already_compressed("a.zip/"));
    assert!(is_already_compressed("/x/y/a.ZIP//"));
    assert!(!is_already_compressed("a.zip/b"));
    assert!(!is_already_compressed("/"));
    assert_eq!(file_name_of("/d/dir/"), "dir");
    assert_eq!(file_name_of("/d/dir\\\\"), "dir");
    assert_eq!(file_name_of("dir/"), "dir");
    assert_eq!(file_name_of("/"), "");
    assert_eq!(file_name_of(""), "");
    assert_eq!(sibling_path("/d/dir/", "x"), "/d/x");
    assert_eq!(get_unique_path("/d/dir/", &names(&["dir"])), "/d/dir (1)");
    assert_eq!(get_unique_path("/d/dir/", &names(&["dir", "dir (1)"])), "/d/dir (2)");
    assert_eq!(get_unique_path("/d/dir/", &names(&["other"])), "/d/dir/");
    assert_eq!(get_unique_path("/d/a.txt/", &names(&["a.txt"])), "/d/a (1).txt");
    let plan = plan_lock("/d/dir/", true, CompressionMode::Auto, &names(&["dir"]));
    assert_eq!(plan.name, "dir");
    assert_eq!(plan.output_path, "/d/dir.qre");
    assert_eq!(plan.archive_path, Some("/d/dir.zip".to_string()));
    let plan = plan_lock("/d/a.zip/", false, CompressionMode::Auto, &names(&["a.zip", "a.zip.qre"]));
    assert_eq!(plan.name, "a.zip");
    assert_eq!(plan.level, 1);
    assert_eq!(plan.output_path, "/d/a.zip (1).qre");
}

#[test]
fn parallelism_beyond_the_limit_is_refused() {
    let salt = "c2FsdHNhbHRzYWx0c2FsdA";
    assert_eq!(derive_kek("pw", salt, 8, 1, 0x2000_0000).unwrap_err(), VaultError::KdfFailure);
    assert_eq!(derive_kek("pw", salt, 8, 1, 0x0100_0000).unwrap_err(), VaultError::KdfFailure);
    assert_eq!(derive_kek("pw", salt, 8, 1, u32::MAX).unwrap_err(), VaultError::KdfFailure);
    assert_eq!(derive_kek("pw", salt, 8, 1, 0x00ff_ffff).unwrap_err(), VaultError::KdfFailure);
    assert!(derive_kek("pw", salt, 8, 1, 1).is_ok());
}

#[test]
fn salts_identifiers_and_groups_from_bytes() {
    assert_eq!(salt_from_bytes(&[0u8; 16]).unwrap(), "AAAAAAAAAAAAAAAAAAAAAA");
    assert_eq!(salt_from_bytes(&[0xffu8; 16]).unwrap(), "/////////////////////w");
    let salt = salt_from_bytes(b"saltsaltsaltsalt").unwrap();
    assert_eq!(salt, "c2FsdHNhbHRzYWx0c2FsdA");
    assert!(derive_kek("pw", &salt, 8, 1, 1).is_ok());

    let bytes: [u8; 16] = [0, 1, 2, 3, 4, 5, 6, 7, 8, 9, 10, 11, 12, 13, 14, 15];
    assert_eq!(uuid_from_bytes(&bytes), "00010203-0405-4607-8809-0a0b0c0d0e0f");
    assert_eq!(uuid_from_bytes(&[0xffu8; 16]), "ffffffff-ffff-4fff-bfff-ffffffffffff");

    assert_eq!(
        groups_from_bytes(&[0x12, 0x34, 0, 0, 0xff, 0xff, 0, 1]),
        [0x1234, 0, 0xffff, 1]
    );
}

#[test]
fn level_zero_is_the_default_level() {
    let data = noise(2000).repeat(3);
    assert_eq!(compress_data(&data, 0).unwrap(), compress_data(&data, 3).unwrap());
    assert_ne!(compress_data(&data, 0).unwrap(), data);
    assert_eq!(decompress_data(&compress_data(&data, 0).unwrap()).unwrap(), data);
}

#[test]
fn packed_entries_are_stored_with_fixed_settings() {
    let walked = vec![
        WalkedEntry { path: "/t/root/".to_string(), kind: WalkedKind::Directory, content: vec![] },
        WalkedEntry { path: "/t/root/a.txt".to_string(), kind: WalkedKind::File, content: vec![7u8; 300] },
    ];
    let bytes = zip_directory_to_memory("/t/root/", &walked).unwrap();
    let mut archive = zip::ZipArchive::new(std::io::Cursor::new(bytes.clone())).unwrap();
    assert_eq!(archive.len(), 2);
    {
        let dir = archive.by_index(0).unwrap();
        assert_eq!(dir.name(), "root/");
        assert!(dir.is_dir());
    }
    let file = archive.by_index(1).unwrap();
    assert_eq!(file.name(), "root/a.txt");
    assert_eq!(file.compression(), zip::CompressionMethod::Stored);
    assert_eq!(file.compressed_size(), 300);
    assert_eq!(file.unix_mode().map(|m| m & 0o777), Some(0o755));
    let stamp = file.last_modified().unwrap();
    assert_eq!((stamp.year(), stamp.month(), stamp.day()), (1980, 1, 1));
    assert_eq!((stamp.hour(), stamp.minute(), stamp.second()), (0, 0, 0));
    // the bytes of the file stand in the archive as they are
    assert!(bytes.windows(300).any(|w| w == &[7u8; 300][..]));
    // a name that is there already is the archive's failure, not the path's
    let twice = vec![
        WalkedEntry { path: "/t/root/a".to_string(), kind: WalkedKind::File, content: vec![1] },
        WalkedEntry { path: "/t/root/a".to_string(), kind: WalkedKind::File, content: vec![2] },
    ];
    assert_eq!(zip_directory_to_memory("/t/root", &twice).unwrap_err(), VaultError::ArchiveFailure);
    let empty: Vec<WalkedEntry> = Vec::new();
    assert!(zip_directory_to_memory("/t/root", &empty).is_ok());
}

#[test]
fn versions_and_their_readers() {
    assert_eq!(detect_version(&[2, 0, 0, 0]), Ok(EnvelopeKind::Legacy));
    assert_eq!(detect_version(&[3, 0, 0, 0]), Ok(EnvelopeKind::Legacy));
    assert_eq!(detect_version(&[4, 0, 0, 0]), Ok(EnvelopeKind::WholePayload));
    assert_eq!(detect_version(&[5, 0, 0, 0]), Ok(EnvelopeKind::Streaming));
    // an older envelope that is cut short goes to its reader and fails there
    assert_eq!(unlock_bytes(&key(), None, &[3, 0, 0, 0, 1]).unwrap_err(), VaultError::Malformed);
    assert_eq!(unlock_bytes(&key(), None, &[7, 0, 0, 0, 1]).unwrap_err(), VaultError::UnsupportedVersion);
}
