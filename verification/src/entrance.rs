//! Per-block entrance animations and the tracker that starts each one once
//! per visit of a slide.

use vstd::prelude::*;

use std::time::{Duration, Instant};

use crate::clock::{duration_nanos, elapsed_since, nanos_of, now};

verus! {

/// What kind of entrance animation a block gets.
#[derive(Clone, Copy, Debug, PartialEq, Eq, Structural)]
pub enum EntranceKind {
    /// H1 headings: glitch characters resolve into real text
    Decrypt,
    /// H2+ headings: characters appear left-to-right
    SlideIn,
    /// Bullet items: staggered cascade with delay per item
    Cascade,
    /// Code blocks: line-by-line typing with cursor
    Typewriter,
    /// Paragraphs, images: cell-by-cell dissolve
    FadeIn,
}

/// Tracks animation progress for a single block entrance.
pub struct EntranceState {
    pub kind: EntranceKind,
    pub started: Instant,
    pub duration: Duration,
}

impl EntranceState {
    /// An animation of `kind` lasting `duration`, starting now.
    pub fn new(kind: EntranceKind, duration: Duration) -> (r: Self)
        ensures
            r.kind == kind,
            r.duration == duration,
    {
        EntranceState { kind, started: now(), duration }
    }

    /// Whether `elapsed`, the time since the animation started, covers its
    /// duration.
    pub fn done_after(&self, elapsed: &Duration) -> (r: bool)
        ensures
            r == (duration_nanos(*elapsed) >= duration_nanos(self.duration)),
    {
        nanos_of(elapsed) >= nanos_of(&self.duration)
    }

    /// The animation's duration has passed since it started: `done_after` of the
    /// time the clock reports as elapsed. Whatever the clock reads, a
    /// animation of zero duration is done.
    pub fn is_done(&self) -> (r: bool)
        ensures
            duration_nanos(self.duration) == 0 ==> r,
    {
        let e = elapsed_since(&self.started);
        self.done_after(&e)
    }
}

/// Tracks per-block entrance animations across frames, keyed by
/// `(slide_index, block_index, sub)`: `sub` 0 is the block's own entrance,
/// `sub = i + 1` the cascade of its item `i`. Each key appears at most once.
pub struct EntranceTracker {
    states: Vec<((usize, usize, usize), EntranceState)>,
    current_slide: usize,
}

/// The keys of a run of tracked entries.
pub open spec fn keys_of(s: Seq<((usize, usize, usize), EntranceState)>) -> Seq<(usize, usize, usize)> {
    s.map_values(|e: ((usize, usize, usize), EntranceState)| e.0)
}

/// The map that a run of entries describes; a later entry wins.
pub open spec fn map_of(s: Seq<((usize, usize, usize), EntranceState)>) -> Map<
    (usize, usize, usize),
    EntranceState,
>
    decreases s.len(),
{
    if s.len() == 0 {
        Map::empty()
    } else {
        map_of(s.drop_last()).insert(s.last().0, s.last().1)
    }
}

proof fn lemma_map_of(s: Seq<((usize, usize, usize), EntranceState)>)
    requires
        keys_of(s).no_duplicates(),
    ensures
        forall|k: (usize, usize, usize)| map_of(s).contains_key(k) == keys_of(s).contains(k),
        forall|i: int| 0 <= i < s.len() ==> map_of(s)[#[trigger] s[i].0] == s[i].1,
    decreases s.len(),
{
    if s.len() > 0 {
        let p = s.drop_last();
        assert(keys_of(p) =~= keys_of(s).drop_last());
        assert(keys_of(p).no_duplicates());
        lemma_map_of(p);
        assert forall|k: (usize, usize, usize)| map_of(s).contains_key(k) == keys_of(s).contains(k) by {
            if keys_of(s).contains(k) {
                let j = choose|j: int| 0 <= j < keys_of(s).len() && keys_of(s)[j] == k;
                if j < p.len() {
                    assert(keys_of(p)[j] == k);
                }
            }
            if keys_of(p).contains(k) {
                let j = choose|j: int| 0 <= j < keys_of(p).len() && keys_of(p)[j] == k;
                assert(keys_of(s)[j] == k);
            }
            assert(keys_of(s)[s.len() - 1] == s.last().0);
        }
        assert forall|i: int| 0 <= i < s.len() implies map_of(s)[#[trigger] s[i].0] == s[i].1 by {
            if i < s.len() - 1 {
                assert(keys_of(s)[i] != keys_of(s)[s.len() - 1]);
                assert(p[i] == s[i]);
            }
        }
    }
}

impl EntranceTracker {
    /// Every tracked animation, by key.
    pub closed spec fn animations(&self) -> Map<(usize, usize, usize), EntranceState> {
        map_of(self.states@)
    }

    /// The slide whose animations are tracked (`usize::MAX` before the first).
    pub closed spec fn slide(&self) -> usize {
        self.current_slide
    }

    /// No key is tracked twice.
    #[verifier::type_invariant]
    spec fn no_key_twice(self) -> bool {
        keys_of(self.states@).no_duplicates()
    }

    /// An empty tracker with no active slide.
    pub fn new() -> (r: Self)
        ensures
            r.animations() == Map::<(usize, usize, usize), EntranceState>::empty(),
            r.slide() == usize::MAX,
    {
        let states: Vec<((usize, usize, usize), EntranceState)> = Vec::new();
        assert(keys_of(states@) =~= seq![]);
        EntranceTracker { states, current_slide: usize::MAX }
    }

    /// Notify the tracker of the active slide: when it differs from the
    /// tracked one, every animation is dropped.
    pub fn on_slide_change(&mut self, slide: usize)
        ensures
            final(self).slide() == slide,
            slide != old(self).slide() ==> final(self).animations() == Map::<
                (usize, usize, usize),
                EntranceState,
            >::empty(),
            slide == old(self).slide() ==> final(self).animations() == old(self).animations(),
    {
        if slide != self.current_slide {
            let states: Vec<((usize, usize, usize), EntranceState)> = Vec::new();
            assert(keys_of(states@) =~= seq![]);
            self.states = states;
            self.current_slide = slide;
        }
    }

    fn index_of(&self, key: (usize, usize, usize)) -> (r: Option<usize>)
        ensures
            r matches Some(i) ==> i < self.states@.len() && self.states@[i as int].0 == key,
            r is None ==> !keys_of(self.states@).contains(key),
    {
        let mut i: usize = 0;
        while i < self.states.len()
            invariant
                i <= self.states@.len(),
                forall|j: int| 0 <= j < i ==> self.states@[j].0 != key,
            decreases self.states@.len() - i,
        {
            if self.states[i].0.0 == key.0 && self.states[i].0.1 == key.1 && self.states[i].0.2
                == key.2 {
                return Some(i);
            }
            i = i + 1;
        }
        proof {
            if keys_of(self.states@).contains(key) {
                let j = choose|j: int| 0 <= j < keys_of(self.states@).len() && keys_of(self.states@)[j] == key;
                assert(self.states@[j].0 == key);
            }
        }
        None
    }

    /// The entrance state of slot `sub` of block `block_idx` on `slide`
    /// (0 for the block itself, `i + 1` for its item `i`), starting an
    /// animation of `kind` lasting `duration` when the slot has none yet;
    /// `None` once that animation has finished. The answer is
    /// `unfinished_at` of the time the clock reports since the state's
    /// start, so a state of zero duration always gives `None`. `kind` and
    /// `duration` are only used when creating a new state.
    pub fn get_or_start_sub(
        &mut self,
        slide: usize,
        block_idx: usize,
        sub: usize,
        kind: EntranceKind,
        duration: Duration,
    ) -> (r: Option<&EntranceState>)
        ensures
            final(self).slide() == old(self).slide(),
            old(self).animations().contains_key((slide, block_idx, sub)) ==> final(self).animations()
                == old(self).animations(),
            !old(self).animations().contains_key((slide, block_idx, sub)) ==> final(self).animations()
                == old(self).animations().insert(
                (slide, block_idx, sub),
                final(self).animations()[(slide, block_idx, sub)],
            ),
            !old(self).animations().contains_key((slide, block_idx, sub)) ==> final(self).animations()[(slide, block_idx, sub)].kind == kind,
            !old(self).animations().contains_key((slide, block_idx, sub)) ==> final(self).animations()[(slide, block_idx, sub)].duration == duration,
            final(self).animations().contains_key((slide, block_idx, sub)),
            r matches Some(s) ==> *s == final(self).animations()[(slide, block_idx, sub)],
            r matches Some(s) ==> duration_nanos(s.duration) > 0,
            duration_nanos(final(self).animations()[(slide, block_idx, sub)].duration) == 0 ==> r is None,
    {
        let key = (slide, block_idx, sub);
        proof {
            use_type_invariant(&*self);
            lemma_map_of(self.states@);
        }
        let idx = match self.index_of(key) {
            Some(i) => {
                assert(keys_of(self.states@)[i as int] == key);
                assert(keys_of(self.states@).contains(key));
                assert(map_of(self.states@).contains_key(key));
                i
            },
            None => {
                let ghost old_states = self.states@;
                let fresh = EntranceState::new(kind, duration);
                let ghost fresh_v = fresh;
                let mut states: Vec<((usize, usize, usize), EntranceState)> = Vec::new();
                assert(keys_of(states@) =~= seq![]);
                std::mem::swap(&mut states, &mut self.states);
                states.push((key, fresh));
                proof {
                    assert(states@.drop_last() =~= old_states);
                    assert(states@.last() == (key, fresh_v));
                    assert(map_of(states@) == map_of(old_states).insert(key, fresh_v));
                    assert(map_of(states@)[key] == fresh_v);
                    assert(keys_of(states@) =~= keys_of(old_states).push(key));
                    assert forall|a: int, b: int|
                        0 <= a < keys_of(states@).len() && 0 <= b < keys_of(states@).len()
                            && a != b implies keys_of(states@)[a] != keys_of(states@)[b] by {
                        if a < old_states.len() && b < old_states.len() {
                            assert(keys_of(old_states)[a] == keys_of(states@)[a]);
                            assert(keys_of(old_states)[b] == keys_of(states@)[b]);
                        } else if a < old_states.len() {
                            assert(keys_of(old_states).contains(keys_of(states@)[a]));
                        } else if b < old_states.len() {
                            assert(keys_of(old_states).contains(keys_of(states@)[b]));
                        }
                    }
                }
                self.states = states;
                assert(self.animations() == old(self).animations().insert(key, fresh_v));
                assert(fresh_v.kind == kind && fresh_v.duration == duration);
                self.states.len() - 1
            },
        };
        proof {
            use_type_invariant(&*self);
            assert(self.states@[idx as int].0 == key);
            assert(keys_of(self.states@)[idx as int] == key);
            lemma_map_of(self.states@);
        }
        let e = elapsed_since(&self.states[idx].1.started);
        self.unfinished_at(slide, block_idx, sub, &e)
    }

    /// The entrance state of block `block_idx` on `slide`, starting an
    /// animation of `kind` lasting `duration` when the block has none yet;
    /// `None` once that animation has finished. The answer is `unfinished_at`
    /// of the time the clock reports since the state's start, so a state of
    /// zero duration always gives `None`.
    ///
    /// `kind` and `duration` are only used when creating a new state; a block
    /// that already has one keeps it.
    pub fn get_or_start(
        &mut self,
        slide: usize,
        block_idx: usize,
        kind: EntranceKind,
        duration: Duration,
    ) -> (r: Option<&EntranceState>)
        ensures
            final(self).slide() == old(self).slide(),
            old(self).animations().contains_key((slide, block_idx, 0usize)) ==> final(self).animations()
                == old(self).animations(),
            !old(self).animations().contains_key((slide, block_idx, 0usize)) ==> final(self).animations()
                == old(self).animations().insert(
                (slide, block_idx, 0usize),
                final(self).animations()[(slide, block_idx, 0usize)],
            ),
            !old(self).animations().contains_key((slide, block_idx, 0usize)) ==> final(self).animations()[(slide, block_idx, 0usize)].kind == kind,
            !old(self).animations().contains_key((slide, block_idx, 0usize)) ==> final(self).animations()[(slide, block_idx, 0usize)].duration == duration,
            final(self).animations().contains_key((slide, block_idx, 0usize)),
            r matches Some(s) ==> *s == final(self).animations()[(slide, block_idx, 0usize)],
            r matches Some(s) ==> duration_nanos(s.duration) > 0,
            duration_nanos(final(self).animations()[(slide, block_idx, 0usize)].duration) == 0 ==> r is None,
    {
        self.get_or_start_sub(slide, block_idx, 0, kind, duration)
    }

    /// The tracked state of slot `sub` of block `block_idx` on `slide`, when
    /// `elapsed`, the
    /// time since that state started, is still short of its duration;
    /// `None` when the block has no state or its animation has finished.
    pub fn unfinished_at(&self, slide: usize, block_idx: usize, sub: usize, elapsed: &Duration) -> (r: Option<
        &EntranceState,
    >)
        ensures
            !self.animations().contains_key((slide, block_idx, sub)) ==> r is None,
            self.animations().contains_key((slide, block_idx, sub)) ==> {
                let s = self.animations()[(slide, block_idx, sub)];
                if duration_nanos(*elapsed) >= duration_nanos(s.duration) {
                    r is None
                } else {
                    r matches Some(x) && *x == s
                }
            },
    {
        let key = (slide, block_idx, sub);
        proof {
            use_type_invariant(self);
            lemma_map_of(self.states@);
        }
        match self.index_of(key) {
            Some(i) => {
                assert(keys_of(self.states@)[i as int] == key);
                assert(keys_of(self.states@).contains(key));
                assert(self.animations().contains_key(key));
                assert(self.animations()[key] == self.states@[i as int].1);
                if self.states[i].1.done_after(elapsed) {
                    None
                } else {
                    Some(&self.states[i].1)
                }
            },
            None => {
                assert(!self.animations().contains_key(key));
                None
            },
        }
    }

    /// The tracked animations with their keys, in the order they started.
    pub closed spec fn in_order(&self) -> Seq<((usize, usize, usize), EntranceState)> {
        self.states@
    }

    /// The number of tracked animations.
    pub fn animation_count(&self) -> (r: usize)
        ensures
            r == self.in_order().len(),
    {
        self.states.len()
    }

    /// Whether some tracked animation is unfinished when `elapsed[i]` is the
    /// time since the `i`-th of them (in the order they started) began: some
    /// reading falls short of its animation's duration.
    pub fn active_at(&self, elapsed: &Vec<Duration>) -> (r: bool)
        requires
            elapsed@.len() == self.in_order().len(),
        ensures
            r == exists|i: int|
                0 <= i < elapsed@.len() && #[trigger] duration_nanos(elapsed@[i]) < duration_nanos(
                    self.in_order()[i].1.duration,
                ),
    {
        let mut i: usize = 0;
        while i < self.states.len()
            invariant
                i <= self.states@.len(),
                elapsed@.len() == self.states@.len(),
                forall|j: int|
                    0 <= j < i ==> !(#[trigger] duration_nanos(elapsed@[j]) < duration_nanos(
                        self.states@[j].1.duration,
                    )),
            decreases self.states@.len() - i,
        {
            if !self.states[i].1.done_after(&elapsed[i]) {
                assert(duration_nanos(elapsed@[i as int]) < duration_nanos(
                    self.states@[i as int].1.duration,
                ));
                return true;
            }
            i = i + 1;
        }
        false
    }

    /// True if some animation is still running: `active_at` of the time the
    /// clock reports since each tracked animation started. Whatever the
    /// clock reads, it is false when none is tracked or every tracked
    /// animation has zero duration.
    pub fn has_active(&self) -> (r: bool)
        ensures
            self.animations() == Map::<(usize, usize, usize), EntranceState>::empty() ==> !r,
            r ==> exists|k: (usize, usize, usize)|
                #![trigger self.animations()[k]]
                self.animations().contains_key(k) && duration_nanos(self.animations()[k].duration)
                    > 0,
    {
        let mut readings: Vec<Duration> = Vec::new();
        let mut i: usize = 0;
        while i < self.states.len()
            invariant
                i <= self.states@.len(),
                readings@.len() == i,
            decreases self.states@.len() - i,
        {
            readings.push(elapsed_since(&self.states[i].1.started));
            i = i + 1;
        }
        let r = self.active_at(&readings);
        proof {
            use_type_invariant(self);
            lemma_map_of(self.states@);
            if r {
                let j = choose|j: int|
                    0 <= j < readings@.len() && #[trigger] duration_nanos(readings@[j])
                        < duration_nanos(self.in_order()[j].1.duration);
                let k = self.states@[j].0;
                assert(keys_of(self.states@)[j] == k);
                assert(keys_of(self.states@).contains(k));
                assert(self.animations().contains_key(k));
                assert(self.animations()[k] == self.states@[j].1);
            }
        }
        r
    }
}

impl Default for EntranceTracker {
    fn default() -> (r: Self)
        ensures
            r.animations() == Map::<(usize, usize, usize), EntranceState>::empty(),
            r.slide() == usize::MAX,
    {
        Self::new()
    }
}

} // verus!

verus! {

/// The entrance a block plays when its slide appears, with its length in
/// milliseconds: H1 headings decrypt (600), other headings slide in (300),
/// paragraphs fade in (250) and images fade in (300). Code and lists run
/// their own entrances; rules have none.
pub open spec fn entrance_spec(b: crate::markdown::BlockV) -> Option<(EntranceKind, u64)> {
    match b {
        crate::markdown::BlockV::Heading { level, .. } => if level == 1 {
            Some((EntranceKind::Decrypt, 600u64))
        } else {
            Some((EntranceKind::SlideIn, 300u64))
        },
        crate::markdown::BlockV::Paragraph { .. } => Some((EntranceKind::FadeIn, 250u64)),
        crate::markdown::BlockV::Image { .. } => Some((EntranceKind::FadeIn, 300u64)),
        _ => None,
    }
}

/// The entrance of `block` and its length in milliseconds, if it has one
/// of its own.
pub fn entrance_for(block: &crate::markdown::Block) -> (r: Option<(EntranceKind, u64)>)
    ensures
        r == entrance_spec(block@),
        block@ matches crate::markdown::BlockV::Heading { level, .. } && level == 1 ==> r == Some(
            (EntranceKind::Decrypt, 600u64),
        ),
        block@ matches crate::markdown::BlockV::Heading { level, .. } && level != 1 ==> r == Some(
            (EntranceKind::SlideIn, 300u64),
        ),
        block@ is Paragraph ==> r == Some((EntranceKind::FadeIn, 250u64)),
        block@ is Image ==> r == Some((EntranceKind::FadeIn, 300u64)),
        !(block@ is Heading || block@ is Paragraph || block@ is Image) ==> r is None,
{
    match block {
        crate::markdown::Block::Heading { level, .. } => if *level == 1 {
            Some((EntranceKind::Decrypt, 600))
        } else {
            Some((EntranceKind::SlideIn, 300))
        },
        crate::markdown::Block::Paragraph { .. } => Some((EntranceKind::FadeIn, 250)),
        crate::markdown::Block::Image { .. } => Some((EntranceKind::FadeIn, 300)),
        _ => None,
    }
}

/// The typewriter's length for a code block of `lines` lines: 50 ms a line
/// plus 200 ms, saturating.
pub fn typewriter_ms(lines: usize) -> (r: u64)
    ensures
        r == (if lines * 50 + 200 <= u64::MAX {
            lines * 50 + 200
        } else {
            u64::MAX as int
        }),
{
    let n = lines as u64;
    let m = match n.checked_mul(50) {
        Some(m) => m,
        None => u64::MAX,
    };
    m.saturating_add(200)
}

/// The cascade timing of bullet item `item_i`, in milliseconds: it starts
/// 100 ms after the item before it and fades in over 200 ms, so its
/// animation lasts its delay plus 200 ms (both saturating).
pub fn cascade_ms(item_i: usize) -> (r: (u64, u64))
    ensures
        r.0 == (if item_i * 100 <= u64::MAX {
            item_i * 100
        } else {
            u64::MAX as int
        }),
        r.1 == (if r.0 + 200 <= u64::MAX {
            r.0 + 200
        } else {
            u64::MAX as int
        }),
{
    let n = item_i as u64;
    let delay = match n.checked_mul(100) {
        Some(d) => d,
        None => u64::MAX,
    };
    (delay, delay.saturating_add(200))
}

/// Each block kind gets its documented entrance: a level-1 heading
/// decrypts over 600 ms, other headings slide in over 300 ms, paragraphs
/// fade in over 250 ms and images over 300 ms; lists, code and rules run
/// none of these (lists cascade and code types out on their own).
pub proof fn lemma_documented_entrances(b: crate::markdown::BlockV)
    ensures
        b matches crate::markdown::BlockV::Heading { level, .. } && level == 1 ==> entrance_spec(b)
            == Some((EntranceKind::Decrypt, 600u64)),
        b matches crate::markdown::BlockV::Heading { level, .. } && level != 1 ==> entrance_spec(b)
            == Some((EntranceKind::SlideIn, 300u64)),
        b is Paragraph ==> entrance_spec(b) == Some((EntranceKind::FadeIn, 250u64)),
        b is Image ==> entrance_spec(b) == Some((EntranceKind::FadeIn, 300u64)),
        !(b is Heading || b is Paragraph || b is Image) ==> entrance_spec(b) is None,
{
}

} // verus!
