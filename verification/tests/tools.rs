use qre_locker::cleaner::{
    analyze_file, classify, contains_text, keep_jpeg_segment, keep_office_entry, keep_png_chunk,
    remove_metadata, ExifFacts, FileKind,
};
use qre_locker::clipboard_store::{ClipboardEntry, ClipboardVault};
use qre_locker::codec::{
    get_u32_be, get_u32_le, get_u64_be, get_u64_le, put_u32_be, put_u32_le, put_u64_be, put_u64_le,
};
use qre_locker::commands::{
    lock_bytes, lock_items, unlock_bytes, unlock_items, BatchItemResult, LockItem, LockedItem,
};
use qre_locker::compression::CompressionMode;
use qre_locker::error::VaultError;
use qre_locker::keys::{derive_wrapping_key, hash_blocks, KeyfileHasher, MasterKey};
use qre_locker::bookmarks::BookmarksVault;
use qre_locker::notes::NotesVault;
use qre_locker::packer::{archive_name, zip_directory_to_memory, WalkedEntry, WalkedKind};
use qre_locker::primitives::aead::{open, seal};
use qre_locker::primitives::compress::{compress_data, decompress_data};
use qre_locker::primitives::hash::digest;
use qre_locker::primitives::kdf::{derive_kek, fresh_salt};
use qre_locker::primitives::wipe::{wipe, wipe_vec};
use qre_locker::progress::{emit_progress, percentage, stage_percentage, ProgressReporter};
use qre_locker::shred::{plan_file_shred, ShredStep};
use qre_locker::state::SessionState;
use qre_locker::text::{decode, fold_char};
use qre_locker::utils::{check_blank, check_size_limit, get_dir_size, process_keyfile, SizedEntry};
use qre_locker::vault::PasswordVault;
use sha2::Digest;

#[test]
fn empty_vaults() {
    assert!(PasswordVault::new().entries.is_empty());
    assert!(NotesVault::new().entries.is_empty());
    assert!(BookmarksVault::new().entries.is_empty());
    assert!(ClipboardVault::new().entries.is_empty());
}

#[test]
fn sha256_of_known_inputs() {
    let empty = digest(b"");
    assert_eq!(
        empty.iter().map(|b| format!("{:02x}", b)).collect::<String>(),
        "e3b0c44298fc1c149afbf4c8996fb92427ae41e4649b934ca495991b7852b855"
    );
    let abc = digest(b"abc");
    assert_eq!(
        abc.iter().map(|b| format!("{:02x}", b)).collect::<String>(),
        "ba7816bf8f01cfea414140de5dae2223b00361a396177a9cb410ff61f20015ad"
    );
}

#[test]
fn wrapping_key_mixes_the_keyfile() {
    let mk = MasterKey([1u8; 32]);
    let mut input = vec![1u8; 32];
    input.extend_from_slice(b"NO_KEYFILE");
    assert_eq!(derive_wrapping_key(&mk, None).to_vec(), sha2::Sha256::digest(&input).to_vec());
    let keyfile = digest(b"k");
    let mut input = vec![1u8; 32];
    input.extend_from_slice(b"KEYFILE_MIX");
    input.extend_from_slice(&keyfile);
    assert_eq!(
        derive_wrapping_key(&mk, Some(&keyfile)).to_vec(),
        sha2::Sha256::digest(&input).to_vec()
    );
}

#[test]
fn keyfile_hash_does_not_depend_on_blocks() {
    let mut bytes = Vec::new();
    for i in 0..10_000u32 {
        bytes.push((i * 7 % 256) as u8);
    }
    let whole = hash_blocks(&vec![bytes.clone()]);
    assert_eq!(whole, digest(&bytes));
    for size in [1usize, 13, 4096, 9999, 20000] {
        let blocks: Vec<Vec<u8>> = bytes.chunks(size).map(|c| c.to_vec()).collect();
        assert_eq!(hash_blocks(&blocks), whole, "blocks of {}", size);
        let mut hasher = KeyfileHasher::new();
        for b in &blocks {
            hasher.absorb(b);
        }
        assert_eq!(hasher.finish(), whole);
    }
    assert_eq!(hash_blocks(&vec![]), digest(b""));
    assert_eq!(hash_blocks(&vec![vec![], vec![1, 2], vec![], vec![3]]), digest(&[1, 2, 3]));
}

#[test]
fn keyfile_processing() {
    let blocks = vec![vec![0u8; 4096]];
    assert_eq!(process_keyfile(None, &blocks), None);
    assert_eq!(process_keyfile(Some(""), &blocks), None);
    assert_eq!(process_keyfile(Some("  \t\n"), &blocks), None);
    assert_eq!(process_keyfile(Some("/k"), &blocks), Some(digest(&[0u8; 4096])));
    assert!(check_blank("\u{3000}\u{a0} "));
    assert!(!check_blank(" a "));
}

#[test]
fn aead_seals_and_opens() {
    let key = [1u8; 32];
    let nonce = [2u8; 12];
    let sealed = seal(&key, &nonce, b"aad", b"plain").unwrap();
    assert_eq!(sealed.len(), 5 + 16);
    assert_ne!(&sealed[..5], b"plain");
    assert_eq!(open(&key, &nonce, b"aad", &sealed), Some(b"plain".to_vec()));
    assert_eq!(open(&key, &nonce, b"other", &sealed), None);
    assert_eq!(open(&key, &[3u8; 12], b"aad", &sealed), None);
    assert_eq!(open(&[9u8; 32], &nonce, b"aad", &sealed), None);
    assert_eq!(open(&key, &nonce, b"aad", &sealed[..15]), None);
    // a known answer: the all-zero key and nonce seal nothing to this tag
    let tag = seal(&[0u8; 32], &[0u8; 12], b"", b"").unwrap();
    assert_eq!(
        tag.iter().map(|b| format!("{:02x}", b)).collect::<String>(),
        "530f8afbc74536b9a963b4f1c4cb738b"
    );
}

#[test]
fn compression_round_trips() {
    let data = vec![7u8; 10_000];
    for level in [0, 1, 3, 15, 19] {
        let frame = compress_data(&data, level).unwrap();
        assert!(frame.len() < data.len());
        assert_eq!(decompress_data(&frame).unwrap(), data);
    }
    assert_eq!(decompress_data(b"not a frame").unwrap_err(), VaultError::CompressionFailure);
}

#[test]
fn kdf_is_deterministic_and_salted() {
    let a = derive_kek("pw", "c2FsdHNhbHRzYWx0c2FsdA", 19456, 2, 1).unwrap();
    let b = derive_kek("pw", "c2FsdHNhbHRzYWx0c2FsdA", 19456, 2, 1).unwrap();
    let c = derive_kek("pw", "b3RoZXJzYWx0b3RoZXJzYQ", 19456, 2, 1).unwrap();
    let d = derive_kek("pw2", "c2FsdHNhbHRzYWx0c2FsdA", 19456, 2, 1).unwrap();
    let e = derive_kek("pw", "c2FsdHNhbHRzYWx0c2FsdA", 19456, 3, 1).unwrap();
    assert_eq!(a, b);
    assert_ne!(a, c);
    assert_ne!(a, d);
    assert_ne!(a, e);
    assert_eq!(
        derive_kek("pw", "c2FsdHNhbHRzYWx0c2FsdA", 1, 2, 1).unwrap_err(),
        VaultError::KdfFailure
    );
    assert_eq!(derive_kek("pw", "", 19456, 2, 1).unwrap_err(), VaultError::KdfFailure);
    let salt = fresh_salt().unwrap();
    assert_eq!(salt.len(), 22);
    assert_ne!(salt, fresh_salt().unwrap());
    assert!(derive_kek("pw", &salt, 19456, 2, 1).is_ok());
}

#[test]
fn wiping() {
    let mut key = [5u8; 32];
    wipe(&mut key);
    assert_eq!(key, [0u8; 32]);
    let mut buf = vec![1u8, 2, 3];
    wipe_vec(&mut buf);
    assert!(buf.is_empty());
    let mut mk = MasterKey([5u8; 32]);
    let copy = mk.duplicate();
    mk.erase();
    assert_eq!(mk.0, [0u8; 32]);
    assert_eq!(copy.0, [5u8; 32]);
}

#[test]
fn integers_on_the_wire() {
    let mut out = Vec::new();
    put_u32_le(&mut out, 0x0102_0304);
    put_u32_be(&mut out, 0x0102_0304);
    put_u64_le(&mut out, 0x0102_0304_0506_0708);
    put_u64_be(&mut out, 0x0102_0304_0506_0708);
    assert_eq!(
        out,
        vec![4, 3, 2, 1, 1, 2, 3, 4, 8, 7, 6, 5, 4, 3, 2, 1, 1, 2, 3, 4, 5, 6, 7, 8]
    );
    assert_eq!(get_u32_le(&out, 0), 0x0102_0304);
    assert_eq!(get_u32_be(&out, 4), 0x0102_0304);
    assert_eq!(get_u64_le(&out, 8), 0x0102_0304_0506_0708);
    assert_eq!(get_u64_be(&out, 16), 0x0102_0304_0506_0708);
    let mut max = Vec::new();
    put_u64_be(&mut max, u64::MAX);
    put_u32_le(&mut max, u32::MAX);
    assert_eq!(get_u64_be(&max, 0), u64::MAX);
    assert_eq!(get_u32_le(&max, 8), u32::MAX);
}

#[test]
fn text_decoding_and_folding() {
    assert_eq!(decode("naïve".as_bytes().to_vec()), Some("naïve".to_string()));
    assert_eq!(decode(vec![0xff, 0xfe]), None);
    assert_eq!(fold_char('A'), 'a');
    assert_eq!(fold_char('Z'), 'z');
    assert_eq!(fold_char('a'), 'a');
    assert_eq!(fold_char('É'), 'É');
    assert_eq!(fold_char('\u{212A}'), 'k');
    assert_eq!(fold_char('1'), '1');
}

#[test]
fn percentages() {
    assert_eq!(percentage(0, 10), 0);
    assert_eq!(percentage(1, 3), 33);
    assert_eq!(percentage(2, 3), 66);
    assert_eq!(percentage(3, 3), 100);
    assert_eq!(percentage(5, 3), 100);
    assert_eq!(percentage(0, 0), 100);
    assert_eq!(percentage(u64::MAX - 1, u64::MAX), 99);
    assert_eq!(stage_percentage(20, 100, 0), 20);
    assert_eq!(stage_percentage(20, 100, 50), 60);
    assert_eq!(stage_percentage(20, 100, 100), 100);
    assert_eq!(stage_percentage(0, 100, 37), 37);
    let e = emit_progress("Encrypting: a.txt", 250);
    assert_eq!(e.status, "Encrypting: a.txt");
    assert_eq!(e.percentage, 100);
    assert_eq!(emit_progress("x", 42).percentage, 42);
}

#[test]
fn reports_are_coalesced() {
    let mut reporter = ProgressReporter::new();
    let mut seen = Vec::new();
    for processed in 0..=1000u64 {
        if let Some(p) = reporter.update(processed, 1000) {
            seen.push(p);
        }
    }
    let want: Vec<u8> = (0..=100).collect();
    assert_eq!(seen, want);
    assert_eq!(reporter.update(1000, 1000), None);
    assert_eq!(reporter.update(10, 1000), None);
}

#[test]
fn shred_plans() {
    assert_eq!(plan_file_shred(0, false), vec![ShredStep::RenameAndUnlink]);
    assert_eq!(plan_file_shred(0, true), vec![ShredStep::Unlink]);
    assert_eq!(plan_file_shred(12345, true), vec![ShredStep::Unlink]);
    assert_eq!(
        plan_file_shred(10, false),
        vec![
            ShredStep::Overwrite { len: 10, report: Some(100) },
            ShredStep::Sync,
            ShredStep::RenameAndUnlink
        ]
    );
    let chunk = 16 * 1024 * 1024u64;
    let len = 40 * chunk + 5;
    let plan = plan_file_shred(len, false);
    assert_eq!(plan.len(), 41 + 2);
    let mut written = 0u64;
    let mut last = 0u8;
    for step in &plan[..41] {
        match step {
            ShredStep::Overwrite { len: n, report } => {
                assert!(*n > 0 && *n <= chunk);
                written += n;
                if let Some(p) = report {
                    assert!(*p >= last + 5);
                    assert_eq!(*p as u64, written * 100 / len);
                    last = *p;
                }
            }
            other => panic!("unexpected step {:?}", other),
        }
    }
    assert_eq!(written, len);
    // after the last report fewer than five percent were left
    assert!(last > 95);
    assert_eq!(plan[41], ShredStep::Sync);
    assert_eq!(plan[42], ShredStep::RenameAndUnlink);
    // two chunks: reports at 50 and 100
    assert_eq!(
        plan_file_shred(2 * chunk, false),
        vec![
            ShredStep::Overwrite { len: chunk, report: Some(50) },
            ShredStep::Overwrite { len: chunk, report: Some(100) },
            ShredStep::Sync,
            ShredStep::RenameAndUnlink
        ]
    );
}

#[test]
fn sizes() {
    let entries = vec![
        SizedEntry { is_file: true, len: 10 },
        SizedEntry { is_file: false, len: 4096 },
        SizedEntry { is_file: true, len: 5 },
    ];
    assert_eq!(get_dir_size(&entries), Ok(15));
    assert_eq!(get_dir_size(&vec![]), Ok(0));
    let huge = vec![
        SizedEntry { is_file: true, len: u64::MAX },
        SizedEntry { is_file: true, len: 1 },
    ];
    assert_eq!(get_dir_size(&huge), Err(VaultError::SizeLimitExceeded));
    assert_eq!(check_size_limit(4 * 1024 * 1024 * 1024), Ok(()));
    assert_eq!(
        check_size_limit(4 * 1024 * 1024 * 1024 + 1),
        Err(VaultError::SizeLimitExceeded)
    );
    assert_eq!(check_size_limit(0), Ok(()));
}

fn clip(id: &str, created_at: i64) -> ClipboardEntry {
    ClipboardEntry {
        id: id.to_string(),
        content: String::new(),
        preview: String::new(),
        category: "Text".to_string(),
        created_at,
    }
}

#[test]
fn clipboard_entries_expire() {
    let hour = 3_600_000i64;
    let now = 100 * hour;
    let mut vault = ClipboardVault::new();
    vault.entries = vec![
        clip("fresh", now - 1),
        clip("old", now - 24 * hour),
        clip("edge", now - 24 * hour + 1),
        clip("older", now - 48 * hour),
        clip("future", now + 5),
    ];
    assert!(vault.prune_expired(now, 24));
    let ids: Vec<&str> = vault.entries.iter().map(|e| e.id.as_str()).collect();
    assert_eq!(ids, vec!["fresh", "edge", "future"]);
    assert!(!vault.prune_expired(now, 24));
    assert!(vault.prune_expired(now, 0));
    assert_eq!(vault.entries.len(), 1);
    let mut extreme = ClipboardVault::new();
    extreme.entries = vec![clip("a", i64::MIN), clip("b", i64::MAX)];
    // no overflow at the ends of the range: with the longest retention nothing is old
    assert!(!extreme.prune_expired(i64::MAX, u64::MAX));
    assert_eq!(extreme.entries.len(), 2);
    assert!(extreme.prune_expired(i64::MAX, 1_000_000));
    assert_eq!(extreme.entries.len(), 1);
    assert_eq!(extreme.entries[0].id, "b");
}

#[test]
fn file_kinds() {
    assert_eq!(classify("a.jpg"), FileKind::Jpeg);
    assert_eq!(classify("a.JPEG"), FileKind::Jpeg);
    assert_eq!(classify("/x/y.png"), FileKind::Png);
    assert_eq!(classify("a.webp"), FileKind::OtherImage);
    assert_eq!(classify("a.tiff"), FileKind::OtherImage);
    assert_eq!(classify("a.pdf"), FileKind::Pdf);
    assert_eq!(classify("a.docx"), FileKind::Office);
    assert_eq!(classify("a.xlsx"), FileKind::Office);
    assert_eq!(classify("a.pptx"), FileKind::Office);
    assert_eq!(classify("a.zip"), FileKind::Zip);
    assert_eq!(classify("a.txt"), FileKind::Unsupported);
    assert_eq!(classify("jpg"), FileKind::Unsupported);
    assert_eq!(classify(""), FileKind::Unsupported);
}

#[test]
fn analysis_reports() {
    let facts = ExifFacts {
        has_gps_latitude: true,
        model: Some("X100".to_string()),
        date_time: Some("2020-01-01 10:00:00".to_string()),
        has_artist: false,
        has_copyright: true,
    };
    let r = analyze_file("photo.jpg", Some(facts)).unwrap();
    assert!(r.has_gps);
    assert!(r.has_author);
    assert_eq!(r.camera_info, Some("X100".to_string()));
    assert_eq!(r.creation_date, Some("2020-01-01 10:00:00".to_string()));
    assert_eq!(r.software_info, None);
    assert_eq!(r.file_type, "Image");
    let r = analyze_file("photo.png", None).unwrap();
    assert!(!r.has_gps && !r.has_author);
    assert_eq!(r.camera_info, None);
    let r = analyze_file("doc.pdf", None).unwrap();
    assert!(r.has_author && !r.has_gps);
    assert_eq!(r.software_info, Some("PDF Generator".to_string()));
    assert_eq!(r.file_type, "PDF Document");
    let r = analyze_file("doc.DOCX", None).unwrap();
    assert_eq!(r.software_info, Some("Microsoft Office".to_string()));
    assert_eq!(r.file_type, "Office Document");
    assert_eq!(analyze_file("a.zip", None).unwrap_err(), VaultError::UnsupportedFileType);
    assert_eq!(analyze_file("a.txt", None).unwrap_err(), VaultError::UnsupportedFileType);
}

#[test]
fn cleaning_plans() {
    let plan = remove_metadata("/home/u/Photo.JPG").unwrap();
    assert_eq!(plan.kind, FileKind::Jpeg);
    assert_eq!(plan.output_path, "/home/u/Photo_clean.jpg");
    assert_eq!(remove_metadata("a.b.png").unwrap().output_path, "a.b_clean.png");
    assert_eq!(remove_metadata("x.zip").unwrap().kind, FileKind::Zip);
    assert_eq!(remove_metadata("x.pdf").unwrap().kind, FileKind::Pdf);
    assert_eq!(remove_metadata("x.pptx").unwrap().kind, FileKind::Office);
    assert_eq!(remove_metadata("x.webp").unwrap_err(), VaultError::UnsupportedFileType);
    assert_eq!(remove_metadata("x").unwrap_err(), VaultError::UnsupportedFileType);
}

#[test]
fn metadata_parts() {
    assert!(keep_jpeg_segment(0xE0));
    assert!(keep_jpeg_segment(0xDB));
    assert!(keep_jpeg_segment(0xC0));
    assert!(keep_jpeg_segment(0xDA));
    assert!(!keep_jpeg_segment(0xE1));
    assert!(!keep_jpeg_segment(0xEF));
    assert!(!keep_jpeg_segment(0xFE));
    assert!(keep_jpeg_segment(0xF0));
    for kind in [
        b"eXIf", b"tEXt", b"zTXt", b"iTXt", b"tIME", b"pHYs", b"iCCP", b"cHRM", b"sRGB", b"gAMA",
        b"bKGD", b"hist",
    ] {
        assert!(!keep_png_chunk(kind));
    }
    for kind in [b"IHDR", b"PLTE", b"IDAT", b"IEND", b"tRNS", b"TEXT"] {
        assert!(keep_png_chunk(kind));
    }
    assert!(!keep_office_entry("docProps/core.xml"));
    assert!(!keep_office_entry("x/docProps/app.xml"));
    assert!(!keep_office_entry("docProps/custom.xml.bak"));
    assert!(keep_office_entry("word/document.xml"));
    assert!(keep_office_entry("docProps/thumbnail.jpeg"));
    assert!(keep_office_entry(""));
    let hay: Vec<char> = "hello world".chars().collect();
    assert!(contains_text(&hay, "lo w"));
    assert!(contains_text(&hay, ""));
    assert!(contains_text(&hay, "hello world"));
    assert!(!contains_text(&hay, "hello world!"));
    assert!(!contains_text(&hay, "wold"));
}

#[test]
fn archive_names() {
    let root: Vec<char> = "/home/u/docs".chars().collect();
    assert_eq!(archive_name(&root, "/home/u/docs"), Some("docs".to_string()));
    assert_eq!(archive_name(&root, "/home/u/docs/a/b.txt"), Some("docs/a/b.txt".to_string()));
    assert_eq!(archive_name(&root, "/elsewhere/b.txt"), None);
    let win: Vec<char> = "C:\\u\\docs".chars().collect();
    assert_eq!(archive_name(&win, "C:\\u\\docs\\a\\b.txt"), Some("docs/a/b.txt".to_string()));
}

#[test]
fn packing_a_tree() {
    let walked = vec![
        WalkedEntry { path: "/t/root".to_string(), kind: WalkedKind::Directory, content: vec![] },
        WalkedEntry { path: "/t/root/a.txt".to_string(), kind: WalkedKind::File, content: b"AAA".to_vec() },
        WalkedEntry { path: "/t/root/empty".to_string(), kind: WalkedKind::Directory, content: vec![] },
        WalkedEntry { path: "/t/root/sub".to_string(), kind: WalkedKind::Directory, content: vec![] },
        WalkedEntry { path: "/t/root/sub/b.bin".to_string(), kind: WalkedKind::File, content: vec![0, 1, 2] },
        WalkedEntry { path: "/t/root/link".to_string(), kind: WalkedKind::Other, content: vec![] },
    ];
    let bytes = zip_directory_to_memory("/t/root", &walked).unwrap();
    let again = zip_directory_to_memory("/t/root", &walked).unwrap();
    assert_eq!(bytes, again);
    let mut archive = zip::ZipArchive::new(std::io::Cursor::new(bytes)).unwrap();
    let names: Vec<String> = (0..archive.len())
        .map(|i| archive.by_index(i).unwrap().name().to_string())
        .collect();
    assert_eq!(names, vec!["root/", "root/a.txt", "root/empty/", "root/sub/", "root/sub/b.bin"]);
    let mut content = Vec::new();
    std::io::Read::read_to_end(&mut archive.by_name("root/sub/b.bin").unwrap(), &mut content).unwrap();
    assert_eq!(content, vec![0, 1, 2]);
    assert_eq!(
        archive.by_name("root/a.txt").unwrap().compression(),
        zip::CompressionMethod::Stored
    );
    let misplaced = vec![WalkedEntry {
        path: "/other/x".to_string(),
        kind: WalkedKind::File,
        content: vec![],
    }];
    assert_eq!(
        zip_directory_to_memory("/t/root", &misplaced).unwrap_err(),
        VaultError::InvalidPath
    );
}

#[test]
fn batches_report_every_item_in_order() {
    let mut session = SessionState::new();
    let items = vec![
        LockItem { name: "a.txt".to_string(), content: b"first".to_vec() },
        LockItem { name: "b.jpg".to_string(), content: vec![9u8; 5000] },
        LockItem { name: "c".to_string(), content: vec![] },
    ];
    assert_eq!(
        lock_items(&session, None, &items, None, CompressionMode::Auto, 1024).unwrap_err(),
        VaultError::SessionLocked
    );
    session.login(MasterKey([2u8; 32]));
    let outcomes = lock_items(&session, None, &items, None, CompressionMode::Auto, 1024).unwrap();
    assert_eq!(outcomes.len(), 3);
    let mut locked = Vec::new();
    for (item, outcome) in items.iter().zip(outcomes.iter()) {
        assert_eq!(outcome.result.name, item.name);
        assert!(outcome.result.success);
        assert_eq!(outcome.result.message, "Locked");
        locked.push(LockedItem {
            name: format!("{}.qre", item.name),
            bytes: outcome.envelope.clone().unwrap(),
        });
    }
    // a damaged item in the middle does not keep the others from being unlocked
    let mid = locked[1].bytes.len() - 10;
    locked[1].bytes[mid] ^= 1;
    locked.push(LockedItem { name: "junk.qre".to_string(), bytes: vec![1, 2, 3, 4, 5] });
    let opened = unlock_items(&session, None, &locked).unwrap();
    assert_eq!(opened.len(), 4);
    assert!(opened[0].result.success);
    assert_eq!(opened[0].result.name, "a.txt.qre");
    assert_eq!(opened[0].payload.as_ref().unwrap().content, b"first".to_vec());
    assert_eq!(opened[0].payload.as_ref().unwrap().filename, "a.txt");
    assert!(!opened[1].result.success);
    assert!(opened[1].payload.is_none());
    assert_eq!(opened[1].result.message, VaultError::ChunkAuthFailure.message());
    assert!(opened[2].result.success);
    assert!(opened[2].payload.as_ref().unwrap().content.is_empty());
    assert!(!opened[3].result.success);
    assert_eq!(opened[3].result.message, VaultError::UnsupportedVersion.message());
    // an invalid chunk size fails every item, and every item is reported
    let failed = lock_items(&session, None, &items, None, CompressionMode::Auto, 1000).unwrap();
    assert_eq!(failed.len(), 3);
    for (item, outcome) in items.iter().zip(failed.iter()) {
        assert_eq!(outcome.result.name, item.name);
        assert!(!outcome.result.success);
        assert!(outcome.envelope.is_none());
        assert_eq!(outcome.result.message, VaultError::InvalidChunkSize.message());
    }
    session.logout();
    assert_eq!(unlock_items(&session, None, &locked).unwrap_err(), VaultError::SessionLocked);
}

#[test]
fn verification_failures_share_their_wording() {
    let generic = VaultError::BadCredential.message();
    assert_eq!(VaultError::ValidationMismatch.message(), generic);
    assert_eq!(VaultError::IntegrityFailure.message(), generic);
    assert_eq!(VaultError::ChunkAuthFailure.message(), generic);
    assert_ne!(VaultError::KeyfileRequired.message(), generic);
    assert_ne!(VaultError::SessionLocked.message(), generic);
    assert_eq!(VaultError::SessionLocked.message(), "Vault is locked.");
    let r = BatchItemResult::failed("n".to_string(), generic.clone());
    assert!(!r.success);
    assert_eq!(r.message, generic);
    let r = BatchItemResult::succeeded("n".to_string(), "ok".to_string());
    assert!(r.success);
    assert_eq!(r.name, "n");
}

#[test]
fn locking_one_payload() {
    let mk = MasterKey([2u8; 32]);
    let content = vec![5u8; 3000];
    let bytes = lock_bytes(&mk, None, "a.txt", &content, None, CompressionMode::Auto, 1024).unwrap();
    assert_eq!(&bytes[0..4], &[5, 0, 0, 0]);
    let p = unlock_bytes(&mk, None, &bytes).unwrap();
    assert_eq!(p.filename, "a.txt");
    assert_eq!(p.content, content);
    // the level goes by mode and name: stored bytes of a compressed format shrink less
    let auto_plain = lock_bytes(&mk, None, "a.txt", &content, None, CompressionMode::Auto, 1024).unwrap();
    let extreme = lock_bytes(&mk, None, "a.txt", &content, None, CompressionMode::Extreme, 1024).unwrap();
    assert_eq!(unlock_bytes(&mk, None, &extreme).unwrap().content, content);
    assert!(auto_plain.len() < content.len());
    assert_eq!(
        lock_bytes(&mk, None, "a.txt", &content, None, CompressionMode::Auto, 1000).unwrap_err(),
        VaultError::InvalidChunkSize
    );
    assert_eq!(
        lock_bytes(&mk, None, "a.txt", &content, None, CompressionMode::Store, 0).unwrap_err(),
        VaultError::InvalidChunkSize
    );
}
