use deck::image::{choose_protocol, is_within, resolve, sized_name, FifoCache, ImageProtocol};

#[test]
fn fifo_cache_evicts_oldest() {
    let mut c: FifoCache<u32, &'static str> = FifoCache::new(2);
    c.insert(1, "a");
    c.insert(2, "b");
    c.insert(3, "c");
    assert!(c.get(&1).is_none());
    assert_eq!(c.get(&2), Some(&"b"));
    assert_eq!(c.get(&3), Some(&"c"));
    assert_eq!(c.len(), 2);
}

#[test]
fn fifo_cache_overwrite_keeps_size() {
    let mut c: FifoCache<u32, u32> = FifoCache::new(3);
    c.insert(1, 10);
    c.insert(1, 11);
    assert_eq!(c.len(), 1);
    assert_eq!(c.get(&1), Some(&11));
    assert!(c.contains(&1));
    assert!(!c.contains(&2));
}

#[test]
fn fifo_cache_zero_capacity_holds_latest() {
    let mut c: FifoCache<u32, u32> = FifoCache::new(0);
    c.insert(1, 1);
    c.insert(2, 2);
    assert_eq!(c.len(), 1);
    assert_eq!(c.get(&2), Some(&2));
}

#[test]
fn fifo_cache_string_keys() {
    let mut c: FifoCache<String, u8> = FifoCache::new(4);
    c.insert("a.png".to_string(), 7);
    assert!(c.contains_key_str("a.png"));
    assert_eq!(c.get_str("a.png"), Some(&7));
    assert_eq!(c.get_str("b.png"), None);
}

#[test]
fn protocol_detection_rules() {
    assert_eq!(choose_protocol("", "xterm-kitty", false, false, false), ImageProtocol::Kitty);
    assert_eq!(choose_protocol("", "xterm", true, false, false), ImageProtocol::Kitty);
    assert_eq!(choose_protocol("Ghostty", "xterm", false, false, false), ImageProtocol::Kitty);
    assert_eq!(choose_protocol("WezTerm", "", false, false, false), ImageProtocol::Kitty);
    assert_eq!(choose_protocol("konsole", "", false, false, false), ImageProtocol::Kitty);
    assert_eq!(choose_protocol("iTerm.app", "", false, false, false), ImageProtocol::Sixel);
    assert_eq!(choose_protocol("", "foot-extra", false, false, false), ImageProtocol::Sixel);
    assert_eq!(choose_protocol("", "", false, false, true), ImageProtocol::Sixel);
    assert_eq!(choose_protocol("Apple_Terminal", "xterm-256color", false, false, false), ImageProtocol::HalfBlocks);
}

#[test]
fn image_paths_resolve_under_deck_dir() {
    assert_eq!(resolve("photo.png", "talks"), "talks/photo.png");
    assert_eq!(resolve("photo.png", "talks/"), "talks/photo.png");
    assert_eq!(resolve("photo.png", ""), "photo.png");
    assert_eq!(resolve("/usr/share/a.png", "talks"), "/usr/share/a.png");
}

#[test]
fn path_traversal_is_outside() {
    assert!(is_within("/home/u/talk/img/a.png", "/home/u/talk"));
    assert!(is_within("/home/u/talk", "/home/u/talk"));
    assert!(!is_within("/home/u/talks/a.png", "/home/u/talk"));
    assert!(!is_within("/etc/passwd", "/home/u/talk"));
    assert!(!is_within("rel/a.png", "/home/u/talk"));
    assert!(is_within("/home//u/./talk/a.png", "/home/u/talk/"));
}

#[test]
fn named_cache_finds_by_name_and_evicts_oldest() {
    let mut c: FifoCache<u64, (String, u32)> = FifoCache::new(2);
    c.insert_named("a.png".to_string(), 1);
    c.insert_named("b.png".to_string(), 2);
    assert_eq!(c.get_named("a.png"), Some(&1));
    assert_eq!(c.get_named("c.png"), None);
    c.insert_named("c.png".to_string(), 3);
    assert_eq!(c.get_named("a.png"), None);
    assert_eq!(c.get_named("b.png"), Some(&2));
    assert_eq!(c.get_named("c.png"), Some(&3));
    assert_eq!(c.len(), 2);
}

#[test]
fn sized_names_keep_sizes_apart() {
    assert_eq!(sized_name("img/a.png", 40, 12), "40x12:img/a.png");
    assert_ne!(sized_name("a.png", 4, 12), sized_name("a.png", 41, 2));
}
