use deck::sync::{parse_sync_payload, parse_usize, sync_payload, SyncFile};

#[test]
fn deterministic_path() {
    let a = SyncFile::for_file("/run/user/1000/deck", "talk.md");
    let b = SyncFile::for_file("/run/user/1000/deck", "talk.md");
    assert_eq!(a.path(), b.path());
}

#[test]
fn different_files_different_paths() {
    let a = SyncFile::for_file("/run/user/1000/deck", "a.md");
    let b = SyncFile::for_file("/run/user/1000/deck", "b.md");
    assert_ne!(a.path(), b.path());
}

#[test]
fn sync_path_names_hash() {
    let f = SyncFile::for_file("/tmp/deck", "");
    assert_eq!(f.path(), "/tmp/deck/deck-cbf29ce484222325.sync");
    let f = SyncFile::for_file("/tmp/deck/", "a");
    assert_eq!(f.path(), "/tmp/deck/deck-af63dc4c8601ec8c.sync");
    assert_eq!(f.tmp_path(42), "/tmp/deck/deck-af63dc4c8601ec8c.tmp.42");
}

#[test]
fn payload_roundtrip() {
    assert_eq!(sync_payload(5, 3), "5 3\n");
    assert_eq!(parse_sync_payload(&sync_payload(5, 3)), Some((5, 3)));
    let max = usize::MAX;
    assert_eq!(parse_sync_payload(&sync_payload(0, max)), Some((0, max)));
}

#[test]
fn payload_rejects_malformed_text() {
    assert_eq!(parse_sync_payload(""), None);
    assert_eq!(parse_sync_payload("7"), None);
    assert_eq!(parse_sync_payload("7 x"), None);
    assert_eq!(parse_sync_payload("-1 2"), None);
    assert_eq!(parse_sync_payload("99999999999999999999999 1"), None);
    assert_eq!(parse_sync_payload("  +4\t\n 2 junk"), Some((4, 2)));
}

#[test]
fn usize_parse_rules() {
    let p = |s: &str| parse_usize(&s.chars().collect::<Vec<char>>());
    assert_eq!(p("0"), Some(0));
    assert_eq!(p("+12"), Some(12));
    assert_eq!(p("+"), None);
    assert_eq!(p(""), None);
    assert_eq!(p("1_0"), None);
    assert_eq!(p("18446744073709551615"), Some(usize::MAX));
    assert_eq!(p("18446744073709551616"), None);
}
