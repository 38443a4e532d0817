use stowaway::store::{
    calculate_content_hash, FileSystemStoreManager, SessionFile, StoreLocation, StoreManager, StoreVersion,
    VersionDir,
};
use stowaway::StowawayError;

#[test]
fn test_calculate_content_hash() {
    let content = "test content";
    let hash1 = calculate_content_hash(content);
    let hash2 = calculate_content_hash(content);

    assert_eq!(hash1, hash2);
    assert_eq!(hash1.len(), 64); // SHA256 produces 64 character hex string
}

#[test]
fn store_test_different_content_different_hash() {
    let hash1 = calculate_content_hash("content1");
    let hash2 = calculate_content_hash("content2");

    assert_ne!(hash1, hash2);
}

#[test]
fn content_hash_is_lowercase_hex_sha256() {
    assert_eq!(
        calculate_content_hash("test content"),
        "6ae8a75555209fd6c44157c0aed8016e763ff435a19cf186f76863140143ff72"
    );
    assert_eq!(
        calculate_content_hash(""),
        "e3b0c44298fc1c149afbf4c8996fb92427ae41e4649b934ca495991b7852b855"
    );
}

#[test]
fn test_store_version_creation() {
    let version = StoreVersion {
        hash: "abc123".to_string(),
        timestamp: 1234567890,
        source_dir: "/source".to_string(),
        target_dir: "/target".to_string(),
    };

    assert_eq!(version.hash, "abc123");
    assert_eq!(version.timestamp, 1234567890);
    assert_eq!(version.source_dir, "/source");
}

#[test]
fn store_paths_under_home() {
    let m = FileSystemStoreManager::new(StoreLocation { home_dir: Some("/home/u".to_string()), store_dir: None }).unwrap();
    assert_eq!(m.store_root(), "/home/u/.stowaway");
    assert_eq!(m.session_file_path(), "/home/u/.stowaway/session.json");
    assert_eq!(m.versions_dir(), "/home/u/.stowaway/store");
    assert_eq!(m.get_store_path("abc"), "/home/u/.stowaway/store/abc");
}

#[test]
fn store_directory_overrides_home() {
    let location = StoreLocation { home_dir: Some("/home/u".to_string()), store_dir: Some("/tmp/x/store".to_string()) };
    let m = FileSystemStoreManager::new(location).unwrap();
    assert_eq!(m.store_root(), "/tmp/x/store");
    assert_eq!(m.session_file_path(), "/tmp/x/store/session.json");
    assert_eq!(m.get_store_path("abc"), "/tmp/x/store/store/abc");
    let without_home = StoreLocation { home_dir: None, store_dir: Some("/tmp/x/store".to_string()) };
    assert_eq!(FileSystemStoreManager::new(without_home).unwrap().store_root(), "/tmp/x/store");
}

#[test]
fn store_needs_home_directory() {
    match FileSystemStoreManager::new(StoreLocation { home_dir: None, store_dir: None }) {
        Err(StowawayError::Store(m)) => assert_eq!(m, "Could not determine home directory"),
        _ => panic!("expected a store error"),
    }
}

#[test]
fn current_version_from_session_file() {
    let m = FileSystemStoreManager::new(StoreLocation { home_dir: Some("/home/u".to_string()), store_dir: None }).unwrap();
    assert!(m.get_current_version(SessionFile::Missing).unwrap().is_none());
    let v = StoreVersion {
        hash: "h".to_string(),
        timestamp: 1,
        source_dir: "/s".to_string(),
        target_dir: "/t".to_string(),
    };
    let got = m.get_current_version(SessionFile::Parsed(v)).unwrap().unwrap();
    assert_eq!(got.hash, "h");
    match m.get_current_version(SessionFile::Malformed("expected value".to_string())) {
        Err(StowawayError::Store(msg)) => assert_eq!(msg, "Failed to parse session file: expected value"),
        _ => panic!("expected a store error"),
    }
    match m.get_current_version(SessionFile::Unreadable("denied".to_string())) {
        Err(StowawayError::Io(msg)) => assert_eq!(msg, "denied"),
        _ => panic!("expected an I/O error"),
    }
}

fn dir(path: &str, created: u128) -> VersionDir {
    VersionDir {
        path: path.to_string(),
        is_dir: true,
        has_unicode_name: true,
        created: Some(created),
    }
}

#[test]
fn cleanup_keeps_the_newest_versions() {
    let m = FileSystemStoreManager::new(StoreLocation { home_dir: Some("/home/u".to_string()), store_dir: None }).unwrap();
    let versions = vec![dir("a", 10), dir("b", 30), dir("c", 20), dir("d", 30)];
    // newest first: b (30), d (30, listed later), c (20), a (10)
    assert_eq!(m.cleanup_old_versions(1, &versions), vec!["d", "c", "a"]);
    assert_eq!(m.cleanup_old_versions(2, &versions), vec!["c", "a"]);
    assert!(m.cleanup_old_versions(4, &versions).is_empty());
    assert!(m.cleanup_old_versions(9, &versions).is_empty());
}

#[test]
fn cleanup_skips_entries_it_cannot_date() {
    let m = FileSystemStoreManager::new(StoreLocation { home_dir: Some("/home/u".to_string()), store_dir: None }).unwrap();
    let mut file = dir("file", 50);
    file.is_dir = false;
    let mut undated = dir("undated", 0);
    undated.created = None;
    let versions = vec![file, undated, dir("old", 1), dir("new", 2)];
    assert_eq!(m.cleanup_old_versions(1, &versions), vec!["old"]);
}
