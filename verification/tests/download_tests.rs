use std::io::Write;

use polyfont::download::{
    base_name, font_files_in_archive, fonts_from_listing, FontDownloader, FontSource, LockEntry, LockItem,
    ZipListing, ZipMember,
};
use polyfont::fonts::FontError;

#[test]
fn test_known_fonts_registry_not_empty() {
    let sources = FontDownloader::list_available_sources();
    assert!(!sources.is_empty());
    assert!(sources.iter().any(|s| s.name == "JetBrains Mono"));
    assert!(sources.iter().any(|s| s.name == "Fira Code"));
    assert!(sources.iter().any(|s| s.name == "Monaspace"));
}

#[test]
fn test_google_fonts_url_construction() {
    let sources = FontDownloader::list_available_sources();
    let google_fonts: Vec<_> = sources
        .iter()
        .filter(|s| matches!(s.source, FontSource::GoogleFonts))
        .collect();
    assert!(!google_fonts.is_empty(), "should have at least one Google Fonts entry");
    for gf in &google_fonts {
        if let FontSource::GoogleFonts = gf.source {
            let encoded = gf.name.replace(' ', "+");
            let url = FontDownloader::download_url(&gf.name, &gf.source);
            assert!(url.contains(&encoded), "URL should contain encoded family name");
        }
    }
}

#[test]
fn test_verify_checksum_valid() {
    let expected = "b94d27b9934d3e08a52e52d7da7dabfac484efe37a5380ee9088f7ace2efcde9";
    assert!(
        FontDownloader::verify_checksum(b"hello world", expected).unwrap(),
        "checksum should match for known content"
    );
    assert!(!FontDownloader::verify_checksum(b"hello world!", expected).unwrap());
}

#[test]
fn download_urls() {
    let gh = FontSource::GitHub { repo: "tonsky/FiraCode".to_string(), tag: Some("6.2".to_string()) };
    assert_eq!(
        FontDownloader::download_url("Fira Code", &gh),
        "https://github.com/tonsky/FiraCode/releases/download/6.2/FiraCode.zip"
    );
    let latest = FontSource::GitHub { repo: "IBM/plex".to_string(), tag: None };
    assert_eq!(
        FontDownloader::download_url("IBM Plex Mono", &latest),
        "https://github.com/IBM/plex/releases/download/latest/IBMPlexMono.zip"
    );
    assert_eq!(
        FontDownloader::download_url("Source Serif 4", &FontSource::GoogleFonts),
        "https://fonts.google.com/download?family=Source+Serif+4"
    );
    assert_eq!(FontDownloader::download_url("x", &FontSource::Url("http://a/b.ttf".into())), "http://a/b.ttf");
}

#[test]
fn download_naming_decisions() {
    assert!(FontDownloader::is_zip_download("http://a/b.zip", None));
    assert!(FontDownloader::is_zip_download("http://a/b", Some("application/zip")));
    assert!(!FontDownloader::is_zip_download("http://a/b", Some("font/ttf")));
    assert_eq!(FontDownloader::single_file_name("Roboto Mono", "http://x/y.otf"), "Roboto_Mono.otf");
    assert_eq!(FontDownloader::single_file_name("Roboto Mono", "http://x/y"), "Roboto_Mono.ttf");
    assert!(FontDownloader::is_font_file("fonts/ttf/JetBrainsMono-Regular.ttf"));
    assert!(!FontDownloader::is_font_file("OFL.txt"));
    assert_eq!(FontDownloader::lock_version(&FontSource::GoogleFonts), "unknown");
    assert_eq!(
        FontDownloader::lock_version(&FontSource::GitHub { repo: "r".into(), tag: None }),
        "latest"
    );
}

fn entry(family: &str, sha: &str, path: &str) -> LockEntry {
    LockEntry {
        family: family.to_string(),
        version: "1".to_string(),
        sha256: sha.to_string(),
        path: path.to_string(),
        downloaded_at: "0".to_string(),
    }
}

// A checksum already in the lock file reuses the recorded path; a new one
// is recorded after the existing entries.
#[test]
fn record_download_reuses_or_appends() {
    let (path, write) = FontDownloader::record_download(
        Ok(vec![entry("A", "abc", "/cache/a.ttf")]),
        "A",
        &FontSource::GoogleFonts,
        "abc",
        "/cache/new.ttf",
        5,
    )
    .unwrap();
    assert_eq!(path, "/cache/a.ttf");
    assert!(write.is_none());

    let (path, write) = FontDownloader::record_download(
        Ok(vec![entry("A", "abc", "/cache/a.ttf")]),
        "B",
        &FontSource::GitHub { repo: "r".into(), tag: Some("v2".into()) },
        "def",
        "/cache/b.ttf",
        1700000000,
    )
    .unwrap();
    assert_eq!(path, "/cache/b.ttf");
    let entries = write.unwrap();
    assert_eq!(entries.len(), 2);
    assert_eq!(entries[1].family, "B");
    assert_eq!(entries[1].version, "v2");
    assert_eq!(entries[1].downloaded_at, "1700000000");

    let failed = FontDownloader::record_download(
        Err(FontError::Lockfile("bad".into())),
        "A",
        &FontSource::GoogleFonts,
        "abc",
        "/p",
        0,
    );
    assert!(failed.is_err());
}

#[test]
fn lock_entries_skip_incomplete_items() {
    let complete = LockItem {
        family: Some("JetBrains Mono".into()),
        version: Some("2.304".into()),
        sha256: Some("abc123def456".into()),
        path: Some("/home/user/.cache/polyfont/fonts/JetBrainsMono-Regular.ttf".into()),
        downloaded_at: Some("1700000000".into()),
    };
    let partial = LockItem { family: Some("X".into()), version: None, sha256: None, path: None, downloaded_at: None };
    let entries = FontDownloader::lock_entries(vec![partial, complete]);
    assert_eq!(entries.len(), 1);
    assert_eq!(entries[0].family, "JetBrains Mono");
    assert_eq!(entries[0].sha256, "abc123def456");
    let found = FontDownloader::find_by_checksum(&entries, "abc123def456").unwrap();
    assert_eq!(found.path, "/home/user/.cache/polyfont/fonts/JetBrainsMono-Regular.ttf");
    assert!(FontDownloader::find_by_checksum(&entries, "nope").is_none());
}

#[test]
fn downloader_paths() {
    let d = FontDownloader::with_paths("/c".to_string(), "/c/fonts.lock.toml".to_string());
    assert_eq!(d.cache_dir(), "/c");
    assert_eq!(d.lock_path(), "/c/fonts.lock.toml");
    assert_eq!(polyfont::download::hex_lower(&[0x00, 0x0f, 0xa5, 0xff]), "000fa5ff");
}

#[test]
fn test_fonts_lock_toml_parse() {
    let toml_str = r#"
[[entry]]
family = "JetBrains Mono"
version = "2.304"
sha256 = "abc123def456"
path = "/home/user/.cache/polyfont/fonts/JetBrainsMono-Regular.ttf"
downloaded_at = "1700000000"
"#;
    let entries = FontDownloader::parse_lockfile(toml_str).unwrap();
    assert_eq!(entries.len(), 1);
    assert_eq!(entries[0].family, "JetBrains Mono");
    assert_eq!(entries[0].sha256, "abc123def456");
    assert_eq!(entries[0].path, "/home/user/.cache/polyfont/fonts/JetBrainsMono-Regular.ttf");
}

// Items missing a field, or that are not tables, are skipped; a document
// without an `entry` array has no records; text that is not TOML is a lock
// file error.
#[test]
fn parse_lockfile_skips_and_fails() {
    let text = r#"
[[entry]]
family = "A"
version = "1"
sha256 = "aa"
path = "/a.ttf"

[[entry]]
family = "B"
version = "2"
sha256 = "bb"
path = "/b.ttf"
downloaded_at = "7"
"#;
    let entries = FontDownloader::parse_lockfile(text).unwrap();
    assert_eq!(entries.len(), 1);
    assert_eq!(entries[0].family, "B");
    assert_eq!(entries[0].downloaded_at, "7");
    assert!(FontDownloader::parse_lockfile("").unwrap().is_empty());
    assert!(FontDownloader::parse_lockfile("entry = 3").unwrap().is_empty());
    assert!(FontDownloader::parse_lockfile("entry = [1, \"x\"]").unwrap().is_empty());
    assert!(matches!(FontDownloader::parse_lockfile("[[entry"), Err(FontError::Lockfile(_))));
}

fn zip_of(files: &[(&str, &[u8])]) -> Vec<u8> {
    let mut w = zip::ZipWriter::new(std::io::Cursor::new(Vec::new()));
    let options = zip::write::SimpleFileOptions::default().compression_method(zip::CompressionMethod::Stored);
    for (name, data) in files {
        w.start_file(*name, options).unwrap();
        w.write_all(data).unwrap();
    }
    w.finish().unwrap().into_inner()
}

// Only font files are kept, in archive order, each under the last part of
// its path, with its contents.
#[test]
fn font_files_in_archive_keeps_fonts() {
    let data = zip_of(&[
        ("Fira/README.txt", b"read me"),
        ("Fira/ttf/FiraCode-Bold.ttf", b"bold"),
        ("Fira/otf/FiraCode-Light.otf", b"light"),
        ("Fira/fonts.ttc", b"coll"),
        ("Fira/LICENSE", b"ofl"),
    ]);
    let files = font_files_in_archive(&data).unwrap();
    let names: Vec<&str> = files.iter().map(|(n, _)| n.as_str()).collect();
    assert_eq!(names, vec!["FiraCode-Bold.ttf", "FiraCode-Light.otf", "fonts.ttc"]);
    assert_eq!(files[0].1, b"bold".to_vec());
    assert_eq!(files[1].1, b"light".to_vec());
    assert!(font_files_in_archive(&zip_of(&[("a.txt", b"x")])).unwrap().is_empty());
    match font_files_in_archive(b"not a zip archive") {
        Err(FontError::DiscoveryFailed(m)) => assert!(m.starts_with("failed to read zip archive: ")),
        other => panic!("expected a discovery error, got {other:?}"),
    }
}

// Each outcome of reading an archive: an unreadable font file is an I/O
// error, a member that could not be opened fails discovery after the fonts
// before it were read, and unreadable non-font members do not matter.
#[test]
fn fonts_from_listing_outcomes() {
    let member = |name: &str, data: Result<&[u8], &str>| ZipMember {
        name: name.to_string(),
        data: data.map(|d| d.to_vec()).map_err(|e| e.to_string()),
    };
    let ok = ZipListing {
        members: vec![member("a/x.ttf", Ok(b"1")), member("notes.md", Err("bad")), member("y.otf", Ok(b"2"))],
        stopped: None,
    };
    let files = fonts_from_listing(Ok(ok)).unwrap();
    assert_eq!(files, vec![("x.ttf".to_string(), b"1".to_vec()), ("y.otf".to_string(), b"2".to_vec())]);
    let unreadable = ZipListing { members: vec![member("x.ttf", Err("broken"))], stopped: Some("late".into()) };
    match fonts_from_listing(Ok(unreadable)) {
        Err(FontError::Io(m)) => assert_eq!(m, "broken"),
        other => panic!("expected an I/O error, got {other:?}"),
    }
    let stopped = ZipListing { members: vec![member("x.ttf", Ok(b"1"))], stopped: Some("bad header".into()) };
    match fonts_from_listing(Ok(stopped)) {
        Err(FontError::DiscoveryFailed(m)) => assert_eq!(m, "failed to read zip entry: bad header"),
        other => panic!("expected a discovery error, got {other:?}"),
    }
    match fonts_from_listing(Err("eocd".to_string())) {
        Err(FontError::DiscoveryFailed(m)) => assert_eq!(m, "failed to read zip archive: eocd"),
        other => panic!("expected a discovery error, got {other:?}"),
    }
    assert_eq!(base_name("a/b/c.ttf"), "c.ttf");
    assert_eq!(base_name("c.ttf"), "c.ttf");
}
