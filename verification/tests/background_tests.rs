use std::str::FromStr;

use deck::background::{hash2, BackgroundKind};

#[test]
fn hash2_deterministic() {
    assert_eq!(hash2(42, 7), hash2(42, 7));
}

#[test]
fn hash2_different_inputs_differ() {
    assert_ne!(hash2(1, 2), hash2(2, 1));
    assert_ne!(hash2(0, 0), hash2(0, 1));
}

#[test]
fn hash2_max_no_panic() {
    let _ = hash2(u64::MAX, u64::MAX);
}

#[test]
fn background_names_parse() {
    assert_eq!(BackgroundKind::from_str("aurora"), Ok(BackgroundKind::Aurora));
    assert_eq!(BackgroundKind::from_str("orbit"), Ok(BackgroundKind::Orbit));
    assert_eq!(BackgroundKind::from_str("Matrix"), Err(()));
    assert_eq!(BackgroundKind::from_name("lattice"), Some(BackgroundKind::Lattice));
    assert_eq!(BackgroundKind::from_name(""), None);
}
