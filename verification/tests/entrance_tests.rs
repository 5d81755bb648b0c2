use std::time::Duration;

use deck::entrance::{EntranceKind, EntranceState, EntranceTracker};
use deck::util::Rng;

#[test]
fn tracker_starts_new_animation() {
    let mut tracker = EntranceTracker::new();
    tracker.on_slide_change(0);
    let state = tracker.get_or_start(0, 0, EntranceKind::Decrypt, Duration::from_millis(600));
    assert!(state.is_some());
}

#[test]
fn tracker_clears_on_slide_change() {
    let mut tracker = EntranceTracker::new();
    tracker.on_slide_change(0);
    tracker.get_or_start(0, 0, EntranceKind::Decrypt, Duration::from_millis(600));
    assert!(tracker.has_active());
    tracker.on_slide_change(1);
    assert!(!tracker.has_active());
}

#[test]
fn tracker_returns_none_when_done() {
    let mut tracker = EntranceTracker::new();
    tracker.on_slide_change(0);
    // A state that is already done: a zero-length animation.
    tracker.get_or_start(0, 0, EntranceKind::FadeIn, Duration::ZERO);
    let state = tracker.get_or_start(0, 0, EntranceKind::FadeIn, Duration::from_millis(200));
    assert!(state.is_none());
}

#[test]
fn entrance_rng_deterministic() {
    let mut a = Rng::new(42);
    let mut b = Rng::new(42);
    assert_eq!(a.next(), b.next());
}

#[test]
fn tracker_has_active_with_running() {
    let mut tracker = EntranceTracker::new();
    tracker.on_slide_change(0);
    tracker.get_or_start(0, 0, EntranceKind::Decrypt, Duration::from_secs(10));
    assert!(tracker.has_active());
}

#[test]
fn tracker_keeps_first_state_for_a_block() {
    let mut tracker = EntranceTracker::new();
    tracker.on_slide_change(3);
    tracker.get_or_start(3, 1, EntranceKind::SlideIn, Duration::from_secs(10));
    let state = tracker.get_or_start(3, 1, EntranceKind::FadeIn, Duration::from_secs(20)).unwrap();
    assert_eq!(state.kind, EntranceKind::SlideIn);
    assert_eq!(state.duration, Duration::from_secs(10));
}

#[test]
fn tracker_same_slide_keeps_animations() {
    let mut tracker = EntranceTracker::new();
    tracker.on_slide_change(2);
    tracker.get_or_start(2, 0, EntranceKind::Decrypt, Duration::from_secs(10));
    tracker.on_slide_change(2);
    assert!(tracker.has_active());
}

#[test]
fn entrance_state_records_kind_and_duration() {
    let s = EntranceState::new(EntranceKind::Typewriter, Duration::from_millis(250));
    assert_eq!(s.kind, EntranceKind::Typewriter);
    assert_eq!(s.duration, Duration::from_millis(250));
    assert!(!s.is_done());
}

#[test]
fn entrance_done_after_compares_with_duration() {
    let s = EntranceState::new(EntranceKind::FadeIn, Duration::from_millis(300));
    assert!(!s.done_after(&Duration::from_millis(299)));
    assert!(s.done_after(&Duration::from_millis(300)));
    let z = EntranceState::new(EntranceKind::FadeIn, Duration::ZERO);
    assert!(z.is_done());
    assert!(z.done_after(&Duration::ZERO));
}

#[test]
fn tracker_keeps_a_finished_state_and_gives_none() {
    let mut t = EntranceTracker::new();
    t.on_slide_change(0);
    assert!(t.get_or_start(0, 0, EntranceKind::FadeIn, Duration::ZERO).is_none());
    // The finished state is kept, not replaced by a new 200 ms one.
    assert!(t.get_or_start(0, 0, EntranceKind::FadeIn, Duration::from_millis(200)).is_none());
    assert!(!t.has_active());
}

#[test]
fn tracker_unfinished_at_compares_elapsed_with_duration() {
    let mut t = EntranceTracker::new();
    t.on_slide_change(1);
    t.get_or_start(1, 2, EntranceKind::SlideIn, Duration::from_millis(300));
    let s = t.unfinished_at(1, 2, 0, &Duration::from_millis(100)).expect("running");
    assert_eq!(s.kind, EntranceKind::SlideIn);
    assert!(t.unfinished_at(1, 2, 0, &Duration::from_millis(300)).is_none());
    assert!(t.unfinished_at(1, 3, 0, &Duration::ZERO).is_none());
}

// The progress halves of these two tests measure a float computed by the
// program's drawing code; the library part is whether the state is done.
#[test]
fn entrance_state_progress() {
    let state = EntranceState::new(EntranceKind::Decrypt, Duration::from_millis(400));
    assert!(!state.is_done());
}

#[test]
fn entrance_state_zero_duration() {
    let state = EntranceState::new(EntranceKind::FadeIn, Duration::ZERO);
    assert!(state.is_done());
}

#[test]
fn tracker_active_at_compares_each_reading() {
    let mut t = EntranceTracker::new();
    t.on_slide_change(0);
    t.get_or_start(0, 0, EntranceKind::Decrypt, Duration::from_millis(600));
    t.get_or_start(0, 1, EntranceKind::FadeIn, Duration::from_millis(250));
    assert_eq!(t.animation_count(), 2);
    assert!(t.has_active());
    assert!(t.active_at(&vec![Duration::from_millis(700), Duration::from_millis(100)]));
    assert!(t.active_at(&vec![Duration::from_millis(100), Duration::from_millis(300)]));
    assert!(!t.active_at(&vec![Duration::from_millis(600), Duration::from_millis(250)]));
}
