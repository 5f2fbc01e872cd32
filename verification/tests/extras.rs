use qre_locker::bookmarks::{import_chrome_bookmarks, parse_node, BookmarkNode, NodeKind};
use qre_locker::clipboard_store::{analyze_content, categorize, create_entry, ContentCategory};
use qre_locker::commands::{generate_passphrase, get_startup_file};
use qre_locker::entropy::{collect_user_entropy, seed_from_bytes};
use qre_locker::error::VaultError;
use qre_locker::paths::{file_name_of, sibling_path, to_chars};
use qre_locker::primitives::hash::digest;
use qre_locker::qr::{generate_qr, to_svg_string};
use qre_locker::shred::{plan_tree_shred, ShredNode, ShredStep, TreeStep};

#[test]
fn content_categories() {
    assert_eq!(categorize("4111 1111 1111 1111"), ContentCategory::CreditCard);
    assert_eq!(categorize("4111-1111-1111-1111"), ContentCategory::CreditCard);
    assert_eq!(
        categorize("0x52908400098527886E0F7030069857D2E4169EE7"),
        ContentCategory::CryptoAddress
    );
    assert_eq!(categorize("1BoatSLRHtKNngkdXEeobR76b53LETtpyT"), ContentCategory::CryptoAddress);
    assert_eq!(
        categorize("c732ae86-65ca-45cf-9a0b-1234567890ab"),
        ContentCategory::PotentialPassword
    );
    assert_eq!(categorize("sk-abc"), ContentCategory::ApiKey);
    assert_eq!(categorize("ghp_token"), ContentCategory::ApiKey);
    assert_eq!(
        categorize("averyveryverylongtokenwithoutanyspaces"),
        ContentCategory::ApiKey
    );
    assert_eq!(categorize("Passw0rdX"), ContentCategory::PotentialPassword);
    assert_eq!(categorize("pass-w0rd!x"), ContentCategory::PotentialPassword);
    assert_eq!(categorize("hello world"), ContentCategory::Text);
    assert_eq!(categorize("Passw0r"), ContentCategory::Text);
    assert_eq!(categorize("Pass w0rdX"), ContentCategory::Text);
    assert_eq!(categorize(""), ContentCategory::Text);
    assert_eq!(analyze_content("hello"), Some("Text".to_string()));
    assert_eq!(analyze_content("4111 1111 1111 1111"), Some("Credit Card".to_string()));
    assert_eq!(analyze_content("sk-abc"), Some("API Key".to_string()));
    assert_eq!(analyze_content("Passw0rdX"), Some("Potential Password".to_string()));
    assert_eq!(
        analyze_content("1BoatSLRHtKNngkdXEeobR76b53LETtpyT"),
        Some("Crypto Address".to_string())
    );
}

#[test]
fn clipboard_entry_preview() {
    let e = create_entry("short text", "id-1".to_string(), 42);
    assert_eq!(e.id, "id-1");
    assert_eq!(e.content, "short text");
    assert_eq!(e.preview, "short text");
    assert_eq!(e.category, "Text");
    assert_eq!(e.created_at, 42);
    let e = create_entry("twenty characters!!!", "id".to_string(), 0);
    assert_eq!(e.preview, "twenty characters!!!");
    let e = create_entry("line one\nline two\nline three", "id".to_string(), 0);
    assert_eq!(e.preview, "line one line two li...");
    assert_eq!(e.content, "line one\nline two\nline three");
}

fn url(name: Option<&str>, address: Option<&str>) -> BookmarkNode {
    BookmarkNode {
        kind: NodeKind::Url,
        name: name.map(|s| s.to_string()),
        url: address.map(|s| s.to_string()),
        children: vec![],
    }
}

fn folder(name: Option<&str>, children: Vec<BookmarkNode>) -> BookmarkNode {
    BookmarkNode { kind: NodeKind::Folder, name: name.map(|s| s.to_string()), url: None, children }
}

#[test]
fn bookmark_tree_is_flattened_in_order() {
    let bar = folder(
        None,
        vec![
            url(Some("A"), Some("https://a")),
            folder(
                Some("Work"),
                vec![
                    url(None, Some("https://b")),
                    url(Some("empty"), Some("")),
                    url(Some("none"), None),
                    folder(None, vec![url(Some("C"), Some("https://c"))]),
                ],
            ),
            BookmarkNode { kind: NodeKind::Other, name: None, url: Some("x".into()), children: vec![] },
            url(Some("D"), Some("https://d")),
        ],
    );
    let other = folder(Some("ignored"), vec![url(Some("E"), Some("https://e"))]);
    let entries = import_chrome_bookmarks(Some(&bar), Some(&other), None, 77).unwrap();
    let got: Vec<(String, String, String)> = entries
        .iter()
        .map(|e| (e.title.clone(), e.url.clone(), e.category.clone()))
        .collect();
    let want = vec![
        ("A", "https://a", "Bookmarks Bar"),
        ("Untitled", "https://b", "Bookmarks Bar > Work"),
        ("C", "https://c", "Bookmarks Bar > Work > Folder"),
        ("D", "https://d", "Bookmarks Bar"),
        ("E", "https://e", "Other Bookmarks"),
    ];
    assert_eq!(got.len(), want.len());
    for (g, w) in got.iter().zip(want.iter()) {
        assert_eq!((g.0.as_str(), g.1.as_str(), g.2.as_str()), *w);
    }
    for e in &entries {
        assert_eq!(e.created_at, 77);
        assert!(!e.is_pinned);
        assert_eq!(e.color, "#10b981");
        assert_eq!(e.id.len(), 36);
    }
    assert_ne!(entries[0].id, entries[1].id);
    assert!(import_chrome_bookmarks(None, None, None, 0).unwrap().is_empty());
    let mut results = Vec::new();
    parse_node(&other, "Mobile Bookmarks", 5, &mut results).unwrap();
    assert_eq!(results.len(), 1);
    assert_eq!(results[0].category, "Mobile Bookmarks");
}

#[test]
fn qr_image() {
    let svg = generate_qr("hello").unwrap();
    assert!(svg.starts_with(
        "<?xml version=\"1.0\" encoding=\"UTF-8\"?><svg xmlns=\"http://www.w3.org/2000/svg\" version=\"1.1\" viewBox=\"0 0 29 29\" stroke=\"none\">"
    ));
    assert!(svg.contains("<rect width=\"100%\" height=\"100%\" fill=\"#FFFFFF\"/>"));
    assert!(svg.contains("<path fill=\"#000000\" d=\"M4,4h1v1h-1z "));
    assert!(svg.ends_with("\"/></svg>"));
    let qr = qrcodegen::QrCode::encode_text("hello", qrcodegen::QrCodeEcc::Medium).unwrap();
    let mut dark = 0;
    for y in 0..qr.size() {
        for x in 0..qr.size() {
            let cell = format!("M{},{}h1v1h-1z ", x + 4, y + 4);
            assert_eq!(svg.contains(&cell), qr.get_module(x, y), "module {},{}", x, y);
            if qr.get_module(x, y) {
                dark += 1;
            }
        }
    }
    assert_eq!(svg.matches("h1v1h-1z ").count(), dark);
    let long = "x".repeat(5000);
    assert_eq!(generate_qr(&long).unwrap_err(), VaultError::SizeLimitExceeded);
    let tiny = vec![vec![true, false], vec![false, true]];
    assert_eq!(
        to_svg_string(&tiny, 1),
        "<?xml version=\"1.0\" encoding=\"UTF-8\"?><svg xmlns=\"http://www.w3.org/2000/svg\" version=\"1.1\" viewBox=\"0 0 4 4\" stroke=\"none\"><rect width=\"100%\" height=\"100%\" fill=\"#FFFFFF\"/><path fill=\"#000000\" d=\"M1,1h1v1h-1z M2,2h1v1h-1z \"/></svg>"
    );
}

fn file(path: &str, len: u64) -> ShredNode {
    ShredNode { path: path.to_string(), is_dir: false, len, children: vec![] }
}

fn dir(path: &str, children: Vec<ShredNode>) -> ShredNode {
    ShredNode { path: path.to_string(), is_dir: true, len: 0, children }
}

#[test]
fn tree_is_shredded_from_the_leaves() {
    let tree = dir(
        "/t",
        vec![
            file("/t/a", 3),
            dir("/t/sub", vec![file("/t/sub/b", 0), dir("/t/sub/empty", vec![])]),
            file("/t/c", 1),
        ],
    );
    let plan = plan_tree_shred(&tree, false);
    let order: Vec<String> = plan
        .iter()
        .map(|s| match s {
            TreeStep::ShredFile { path, .. } => format!("shred {}", path),
            TreeStep::RemoveDir { path } => format!("rmdir {}", path),
        })
        .collect();
    assert_eq!(
        order,
        vec![
            "shred /t/a",
            "shred /t/sub/b",
            "rmdir /t/sub/empty",
            "rmdir /t/sub",
            "shred /t/c",
            "rmdir /t"
        ]
    );
    match &plan[0] {
        TreeStep::ShredFile { steps, .. } => assert_eq!(
            steps,
            &vec![
                ShredStep::Overwrite { len: 3, report: Some(100) },
                ShredStep::Sync,
                ShredStep::RenameAndUnlink
            ]
        ),
        other => panic!("unexpected step {:?}", other),
    }
    match &plan[1] {
        TreeStep::ShredFile { steps, .. } => assert_eq!(steps, &vec![ShredStep::RenameAndUnlink]),
        other => panic!("unexpected step {:?}", other),
    }
    let flash = plan_tree_shred(&file("/f", 10), true);
    match &flash[0] {
        TreeStep::ShredFile { steps, .. } => assert_eq!(steps, &vec![ShredStep::Unlink]),
        other => panic!("unexpected step {:?}", other),
    }
}

#[test]
fn entropy_is_mixed_by_hashing() {
    let os = [7u8; 32];
    let seed = collect_user_entropy(&os, "asdf jkl;", 0x0102_0304_0506_0708_090a_0b0c_0d0e_0f10);
    let mut input = os.to_vec();
    input.extend_from_slice(b"asdf jkl;");
    input.extend_from_slice(&0x0102_0304_0506_0708_090a_0b0c_0d0e_0f10u128.to_le_bytes());
    assert_eq!(seed, digest(&input));
    assert_ne!(seed, collect_user_entropy(&os, "asdf jkl;", 1));
    assert_ne!(seed, collect_user_entropy(&[8u8; 32], "asdf jkl;", 1));
    assert_eq!(seed_from_bytes(b"mouse"), digest(b"mouse"));
}

#[test]
fn passphrases() {
    let words: Vec<String> = ["alpha", "beta", "gamma"].iter().map(|s| s.to_string()).collect();
    assert_eq!(generate_passphrase(&words, &vec![0, 1, 2, 3, 4, 5]), "alpha-beta-gamma-alpha-beta-gamma");
    assert_eq!(generate_passphrase(&words, &vec![u64::MAX]), "alpha");
    assert_eq!(generate_passphrase(&words, &vec![]), "");
    assert_eq!(generate_passphrase(&vec![], &vec![1, 2]), "");
}

#[test]
fn startup_file() {
    let args = |list: &[&str]| -> Vec<String> { list.iter().map(|s| s.to_string()).collect() };
    assert_eq!(get_startup_file(&args(&["app", "/x/y.qre"])), Some("/x/y.qre".to_string()));
    assert_eq!(get_startup_file(&args(&["app", "--flag", "/x"])), None);
    assert_eq!(get_startup_file(&args(&["app", "-x"])), Some("-x".to_string()));
    assert_eq!(get_startup_file(&args(&["app"])), None);
    assert_eq!(get_startup_file(&args(&[])), None);
}

#[test]
fn path_parts() {
    assert_eq!(sibling_path("/a/b/c.txt", "d.txt"), "/a/b/d.txt");
    assert_eq!(sibling_path("c.txt", "d.txt"), "d.txt");
    assert_eq!(file_name_of("/a/b/c.txt"), "c.txt");
    assert_eq!(file_name_of("/a/b/"), "b");
    assert_eq!(file_name_of("c"), "c");
    assert_eq!(to_chars("héllo"), "héllo".chars().collect::<Vec<char>>());
}
