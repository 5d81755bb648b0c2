use std::time::Duration;

use deck::transition::{TransitionKind, TransitionState};
use deck::util::{fnv1a, Rng};

#[test]
fn transition_state_new_stores_kind() {
    let t = TransitionState::new(TransitionKind::Glitch);
    assert!(matches!(t.kind, TransitionKind::Glitch));
    assert_eq!(t.duration, Duration::from_millis(400));
}

#[test]
fn transition_not_done_immediately() {
    let t = TransitionState::new(TransitionKind::Fade);
    assert!(!t.is_done());
}

#[test]
fn transition_done_after_zero_duration() {
    let mut t = TransitionState::new(TransitionKind::Wipe);
    t.duration = Duration::ZERO;
    assert!(t.is_done());
}

#[test]
fn transition_rng_deterministic() {
    let mut a = Rng::new(42);
    let mut b = Rng::new(42);
    for _ in 0..100 {
        assert_eq!(a.next(), b.next());
    }
}

#[test]
fn rng_different_seeds_differ() {
    let mut a = Rng::new(1);
    let mut b = Rng::new(2);
    assert_ne!(a.next(), b.next());
}

#[test]
fn rng_zero_seed_not_stuck() {
    let mut rng = Rng::new(0);
    let first = rng.next();
    let second = rng.next();
    assert_ne!(first, 0);
    assert_ne!(first, second);
}

#[test]
fn fnv1a_is_deterministic() {
    assert_eq!(fnv1a("hello"), fnv1a("hello"));
    assert_ne!(fnv1a("hello"), fnv1a("world"));
}

#[test]
fn fnv1a_empty_is_offset_basis() {
    assert_eq!(fnv1a(""), 0xcbf29ce484222325);
}

#[test]
fn fnv1a_known_value() {
    // FNV-1a 64 of "a".
    assert_eq!(fnv1a("a"), 0xaf63dc4c8601ec8c);
}

#[test]
fn rng_first_value_from_seed_one() {
    // xorshift64 (13, 7, 17) of 1.
    let mut rng = Rng::new(1);
    assert_eq!(rng.next(), 1082269761);
}

#[test]
fn rng_never_yields_zero() {
    for seed in [0u64, 1, 2, u64::MAX, 0x8000_0000_0000_0000] {
        let mut rng = Rng::new(seed);
        for _ in 0..1000 {
            assert_ne!(rng.next(), 0);
        }
    }
}

#[test]
fn transition_names() {
    assert_eq!(TransitionKind::from_chars(&['f', 'a', 'd', 'e']), Some(TransitionKind::Fade));
    assert_eq!(TransitionKind::from_chars(&['n', 'o', 'n', 'e']), Some(TransitionKind::Cut));
    assert_eq!(TransitionKind::from_chars(&['F', 'a', 'd', 'e']), None);
    assert_eq!(TransitionKind::default(), TransitionKind::Cut);
}

#[test]
fn transition_done_after_compares_with_duration() {
    let t = TransitionState::new(TransitionKind::Fade);
    assert!(!t.done_after(&Duration::from_millis(399)));
    assert!(t.done_after(&Duration::from_millis(400)));
    assert!(t.done_after(&Duration::from_secs(2)));
}

#[test]
fn fnv1a_of_concatenation_continues_the_first_part() {
    let (s, t) = ("hello ", "world");
    let folded = t.bytes().fold(fnv1a(s), |h, b| (h ^ b as u64).wrapping_mul(0x100000001b3));
    assert_eq!(fnv1a(&(s.to_owned() + t)), folded);
}

#[test]
fn rng_distinct_states_step_to_distinct_values() {
    let mut seen = std::collections::HashSet::new();
    for seed in 0u64..512 {
        let mut r = Rng::new(seed * 2 + 1);
        assert!(seen.insert(r.next()));
    }
}
