use qre_locker::commands::{detect_version, plan_lock, plan_unlock_output, EnvelopeKind};
use qre_locker::compression::{
    compression_level, is_already_compressed, level_for_file, mode_from_name, CompressionMode,
};
use qre_locker::error::VaultError;
use qre_locker::paths::{get_unique_path, unique_name};

fn names(list: &[&str]) -> Vec<String> {
    list.iter().map(|s| s.to_string()).collect()
}

#[test]
fn free_path_is_kept() {
    assert_eq!(get_unique_path("/tmp/a.txt", &names(&["b.txt"])), "/tmp/a.txt");
    assert_eq!(get_unique_path("a.txt", &names(&[])), "a.txt");
}

#[test]
fn taken_path_gets_the_first_free_counter() {
    assert_eq!(get_unique_path("/tmp/a.txt", &names(&["a.txt"])), "/tmp/a (1).txt");
    assert_eq!(
        get_unique_path("/tmp/a.txt", &names(&["a.txt", "a (1).txt", "a (2).txt"])),
        "/tmp/a (3).txt"
    );
    assert_eq!(
        get_unique_path("/tmp/a.txt", &names(&["a.txt", "a (2).txt"])),
        "/tmp/a (1).txt"
    );
}

#[test]
fn counter_goes_before_the_last_extension_only() {
    assert_eq!(unique_name("a.tar.gz", &names(&["a.tar.gz"])), "a.tar (1).gz");
    assert_eq!(unique_name("noext", &names(&["noext"])), "noext (1)");
    assert_eq!(unique_name(".hidden", &names(&[".hidden"])), ".hidden (1)");
    assert_eq!(unique_name("end.", &names(&["end."])), "end (1).");
    assert_eq!(unique_name("report.qre", &names(&["report.qre"])), "report (1).qre");
}

#[test]
fn counters_have_as_many_digits_as_they_need() {
    let mut taken = vec!["f.bin".to_string()];
    for k in 1..=11 {
        taken.push(format!("f ({}).bin", k));
    }
    assert_eq!(unique_name("f.bin", &taken), "f (12).bin");
}

#[test]
fn backslash_separates_too() {
    assert_eq!(get_unique_path("C:\\dir\\a.txt", &names(&["a.txt"])), "C:\\dir\\a (1).txt");
}

#[test]
fn compression_levels() {
    assert_eq!(compression_level(CompressionMode::Store, false), 0);
    assert_eq!(compression_level(CompressionMode::Store, true), 0);
    assert_eq!(compression_level(CompressionMode::Auto, true), 1);
    assert_eq!(compression_level(CompressionMode::Auto, false), 3);
    assert_eq!(compression_level(CompressionMode::Extreme, false), 19);
    assert_eq!(compression_level(CompressionMode::Extreme, true), 19);
}

#[test]
fn compression_modes_by_name() {
    assert_eq!(mode_from_name("store"), CompressionMode::Store);
    assert_eq!(mode_from_name("extreme"), CompressionMode::Extreme);
    assert_eq!(mode_from_name("auto"), CompressionMode::Auto);
    assert_eq!(mode_from_name(""), CompressionMode::Auto);
    assert_eq!(mode_from_name("Store"), CompressionMode::Auto);
}

#[test]
fn already_compressed_extensions() {
    for ext in [
        "jpg", "jpeg", "png", "gif", "webp", "zip", "7z", "rar", "gz", "bz2", "xz", "mp4", "mkv",
        "mov", "avi", "webm", "mp3", "aac", "flac", "wav", "pdf",
    ] {
        assert!(is_already_compressed(&format!("file.{}", ext)), "{}", ext);
        assert!(is_already_compressed(&format!("/some/dir/file.{}", ext.to_uppercase())), "{}", ext);
    }
    for name in ["file.txt", "file", "jpg", ".jpg", "file.jpg.txt", "file.jpgx", "dir.zip/file", ""] {
        assert!(!is_already_compressed(name), "{}", name);
    }
    assert!(is_already_compressed("archive.tar.gz"));
    assert!(is_already_compressed("movie.M\u{212A}V"));
    assert_eq!(level_for_file(CompressionMode::Auto, "a.mp4"), 1);
    assert_eq!(level_for_file(CompressionMode::Auto, "a.txt"), 3);
    assert_eq!(level_for_file(CompressionMode::Store, "a.txt"), 0);
    assert_eq!(level_for_file(CompressionMode::Extreme, "a.mp4"), 19);
}

#[test]
fn version_dispatch() {
    assert_eq!(detect_version(&[4, 0, 0, 0]), Ok(EnvelopeKind::WholePayload));
    assert_eq!(detect_version(&[5, 0, 0, 0, 9]), Ok(EnvelopeKind::Streaming));
    assert_eq!(detect_version(&[3, 0, 0, 0]), Ok(EnvelopeKind::Legacy));
    assert_eq!(detect_version(&[2, 0, 0, 0, 1]), Ok(EnvelopeKind::Legacy));
    assert_eq!(detect_version(&[1, 0, 0, 0]), Err(VaultError::UnsupportedVersion));
    assert_eq!(detect_version(&[6, 0, 0, 0]), Err(VaultError::UnsupportedVersion));
    assert_eq!(detect_version(&[0, 0, 0, 4]), Err(VaultError::UnsupportedVersion));
    assert_eq!(detect_version(&[4, 0, 0]), Err(VaultError::UnsupportedVersion));
    assert_eq!(detect_version(&[]), Err(VaultError::UnsupportedVersion));
}

#[test]
fn lock_plan_for_a_file() {
    let plan = plan_lock("/home/u/photo.JPG", false, CompressionMode::Auto, &names(&["photo.JPG"]));
    assert_eq!(plan.name, "photo.JPG");
    assert_eq!(plan.level, 1);
    assert_eq!(plan.archive_path, None);
    assert_eq!(plan.output_path, "/home/u/photo.JPG.qre");
    let plan = plan_lock(
        "/home/u/notes.txt",
        false,
        CompressionMode::Auto,
        &names(&["notes.txt", "notes.txt.qre"]),
    );
    assert_eq!(plan.level, 3);
    assert_eq!(plan.output_path, "/home/u/notes.txt (1).qre");
}

#[test]
fn lock_plan_for_a_directory() {
    let plan = plan_lock("/home/u/docs", true, CompressionMode::Extreme, &names(&["docs", "docs.zip"]));
    assert_eq!(plan.name, "docs");
    assert_eq!(plan.level, 19);
    assert_eq!(plan.archive_path, Some("/home/u/docs (1).zip".to_string()));
    assert_eq!(plan.output_path, "/home/u/docs.qre");
}

#[test]
fn unlock_output_stays_beside_the_envelope() {
    assert_eq!(
        plan_unlock_output("/home/u/a.txt.qre", "a.txt", &names(&["a.txt.qre"])),
        "/home/u/a.txt"
    );
    assert_eq!(
        plan_unlock_output("/home/u/a.txt.qre", "a.txt", &names(&["a.txt.qre", "a.txt"])),
        "/home/u/a (1).txt"
    );
    assert_eq!(
        plan_unlock_output("/home/u/a.qre", "../../etc/passwd", &names(&[])),
        "/home/u/passwd"
    );
}
