use moxnotify::portal::{detect_target_type, target_path, TargetType};

#[test]
fn remote_targets_are_uris() {
    assert_eq!(target_path("https://example.com"), None);
    assert_eq!(target_path("ftp://host/file"), None);
    assert_eq!(detect_target_type("http://x", None), Some(TargetType::Uri));
}

#[test]
fn local_targets_lose_file_prefixes() {
    assert_eq!(target_path("file:///tmp/a").as_deref(), Some("/tmp/a"));
    assert_eq!(target_path("file://file:///tmp/a").as_deref(), Some("/tmp/a"));
    assert_eq!(target_path("/tmp/b").as_deref(), Some("/tmp/b"));
    assert_eq!(detect_target_type("/tmp", Some(true)), Some(TargetType::Directory));
    assert_eq!(detect_target_type("/tmp/f", Some(false)), Some(TargetType::File));
    assert_eq!(detect_target_type("/nowhere", None), None);
}
