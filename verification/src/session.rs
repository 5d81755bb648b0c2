//! The state of a running presentation and its rules: which slide shows,
//! how many bullets are revealed, what a key press does, and how a follower
//! takes up the presenter's position.

use vstd::prelude::*;

use std::time::Instant;

use crate::clock::{duration_nanos, millis_duration, now};
use crate::input::{key_action, map_key, Action, Key};
use crate::sync::parse_usize;
use crate::text::{chars_of, string_of};
use crate::entrance::EntranceTracker;
use crate::markdown::{blocks_v, Block, BlockV};
use crate::parse::{Deck, Slide, SlideV};
use crate::sync::SyncFile;
use crate::theme::Theme;
use crate::transition::{TransitionKind, TransitionState};

verus! {

/// Which screen the presentation shows.
#[derive(Debug, Clone, Copy, PartialEq, Eq, Structural)]
pub enum Mode {
    Normal,
    Presenter,
}

/// The number of bullet-list items in `blocks` (numbered lists do not count).
pub open spec fn bullet_total(blocks: Seq<BlockV>) -> nat
    decreases blocks.len(),
{
    if blocks.len() == 0 {
        0
    } else {
        bullet_total(blocks.drop_last()) + match blocks.last() {
            BlockV::BulletList { items } => items.len(),
            _ => 0,
        }
    }
}

/// The bullets of a slide, counted in a `usize`: the total, which a slide
/// held in memory never takes past `usize::MAX`, capped there.
pub open spec fn bullet_count(s: SlideV) -> nat {
    let n = bullet_total(s.blocks);
    if n <= usize::MAX {
        n
    } else {
        usize::MAX as nat
    }
}

/// The reveal count a slide opens with: no bullet shown when it has
/// bullets, everything (`usize::MAX`) when it has none.
pub open spec fn opening_reveal(s: SlideV) -> nat {
    if bullet_count(s) > 0 {
        0
    } else {
        usize::MAX as nat
    }
}

/// The number of bullet-list items on `slide`.
pub fn count_bullets(slide: &Slide) -> (r: usize)
    ensures
        r == bullet_count(slide@),
{
    let ghost bs = blocks_v(slide.blocks@);
    let mut total: usize = 0;
    let mut i: usize = 0;
    assert(bs.take(0) =~= seq![]);
    while i < slide.blocks.len()
        invariant
            i <= slide.blocks@.len(),
            bs == blocks_v(slide.blocks@),
            total == (if bullet_total(bs.take(i as int)) <= usize::MAX {
                bullet_total(bs.take(i as int))
            } else {
                usize::MAX as nat
            }),
        decreases slide.blocks@.len() - i,
    {
        assert(bs.take(i + 1).drop_last() =~= bs.take(i as int));
        assert(bs.take(i + 1).last() == slide.blocks@[i as int]@);
        match &slide.blocks[i] {
            Block::BulletList { items } => {
                total = total.saturating_add(items.len());
            },
            _ => {},
        }
        i = i + 1;
    }
    assert(bs.take(i as int) =~= bs);
    total
}

/// The reveal count `slide` opens with.
pub fn initial_reveal(slide: &Slide) -> (r: usize)
    ensures
        r == opening_reveal(slide@),
{
    let total = count_bullets(slide);
    if total > 0 {
        0
    } else {
        usize::MAX
    }
}

/// The transition a slide change plays: the deck's own unless it is `Cut`,
/// then the theme's default.
pub open spec fn transition_for(deck: TransitionKind, theme: TransitionKind) -> TransitionKind {
    if deck == TransitionKind::Cut {
        theme
    } else {
        deck
    }
}

/// A running presentation.
pub struct App {
    pub deck: Deck,
    pub slide_index: usize,
    pub reveal_count: usize,
    pub mode: Mode,
    pub show_help: bool,
    pub goto_input: String,
    pub in_goto: bool,
    pub transition: Option<TransitionState>,
    pub start: Instant,
    pub timer: Instant,
    pub theme: Theme,
    pub sync: Option<SyncFile>,
    pub is_follower: bool,
    pub entrances: EntranceTracker,
}

/// `b` is `a` with, at most, the slide index, the reveal count and the
/// running transition changed.
pub open spec fn same_settings(a: App, b: App) -> bool {
    &&& b.deck == a.deck
    &&& b.mode == a.mode
    &&& b.show_help == a.show_help
    &&& b.goto_input == a.goto_input
    &&& b.in_goto == a.in_goto
    &&& b.start == a.start
    &&& b.timer == a.timer
    &&& b.theme == a.theme
    &&& b.sync == a.sync
    &&& b.is_follower == a.is_follower
    &&& b.entrances == a.entrances
}

/// `b`'s transition is what a slide change from `a` leaves: a new one of
/// the chosen kind, or `a`'s when that kind is `Cut`.
pub open spec fn transition_started(a: App, b: App) -> bool {
    let k = transition_for(a.deck.meta.transition, a.theme.default_transition);
    if k == TransitionKind::Cut {
        b.transition == a.transition
    } else {
        b.transition matches Some(t) && t.kind == k && t.duration == millis_duration(400)
    }
}

/// `b` is `a` moved to the position `pos` (slide, reveal count); a change of
/// slide starts a transition, a move within the slide keeps the transition.
pub open spec fn moved_to(a: App, b: App, pos: (int, int)) -> bool {
    &&& same_settings(a, b)
    &&& b.slide_index == pos.0
    &&& b.reveal_count == pos.1
    &&& if pos.0 != a.slide_index {
        transition_started(a, b)
    } else {
        b.transition == a.transition
    }
}

/// The position after "next": reveal one more bullet, or go to the next
/// slide, or stay on the last.
pub open spec fn advance_pos(slides: Seq<SlideV>, index: int, reveal: int) -> (int, int) {
    let total = bullet_count(slides[index]);
    if total > 0 && reveal < total {
        (index, reveal + 1)
    } else if index < slides.len() - 1 {
        (index + 1, opening_reveal(slides[index + 1]) as int)
    } else {
        (index, reveal)
    }
}

/// The position after "previous": hide the last revealed bullet, or go to
/// the previous slide with all of its bullets shown, or stay on the first.
pub open spec fn go_back_pos(slides: Seq<SlideV>, index: int, reveal: int) -> (int, int) {
    let total = bullet_count(slides[index]);
    if total > 0 && reveal > 0 {
        (index, reveal - 1)
    } else if index > 0 {
        let prev = bullet_count(slides[index - 1]);
        (index - 1, if prev > 0 {
            prev as int
        } else {
            usize::MAX as int
        })
    } else {
        (index, reveal)
    }
}

/// The position after a jump to `target`, clamped to the last slide; a jump
/// to the slide already shown keeps the reveal count.
pub open spec fn go_to_pos(slides: Seq<SlideV>, index: int, reveal: int, target: int) -> (int, int) {
    let t = if target < slides.len() - 1 {
        target
    } else {
        slides.len() - 1
    };
    if t != index {
        (t, opening_reveal(slides[t]) as int)
    } else {
        (index, reveal)
    }
}

impl App {
    /// The slides' values.
    pub open spec fn slides(&self) -> Seq<SlideV> {
        crate::parse::slides_v(self.deck.slides@)
    }

    /// The deck has a slide, and the index points at one.
    pub open spec fn wf(&self) -> bool {
        &&& self.deck.slides@.len() > 0
        &&& self.slide_index < self.deck.slides@.len()
    }

    /// What the presenter sends its followers after a move: the position,
    /// when this instance has a sync file and is not a follower.
    pub open spec fn sync_out(&self) -> Option<(usize, usize)> {
        if self.sync is Some && !self.is_follower {
            Some((self.slide_index, self.reveal_count))
        } else {
            None
        }
    }

    /// A presentation of `deck` on its first slide, in normal mode, with the
    /// timers started now.
    pub fn new(deck: Deck, theme: Theme, sync: Option<SyncFile>, is_follower: bool) -> (r: Self)
        requires
            deck.slides@.len() > 0,
        ensures
            r.wf(),
            r.deck == deck,
            r.theme == theme,
            r.sync == sync,
            r.is_follower == is_follower,
            r.slide_index == 0,
            r.reveal_count == opening_reveal(deck.slides@[0]@),
            r.mode == Mode::Normal,
            !r.show_help,
            !r.in_goto,
            r.goto_input@ == Seq::<char>::empty(),
            r.transition is None,
            r.start == r.timer,
            r.entrances.animations().is_empty(),
    {
        let reveal = initial_reveal(&deck.slides[0]);
        let t = now();
        App {
            deck,
            slide_index: 0,
            reveal_count: reveal,
            mode: Mode::Normal,
            show_help: false,
            goto_input: String::new(),
            in_goto: false,
            transition: None,
            start: t,
            timer: t,
            theme,
            sync,
            is_follower,
            entrances: EntranceTracker::new(),
        }
    }

    /// The slide on screen has an animated background.
    pub fn has_active_background(&self) -> (r: bool)
        requires
            self.wf(),
        ensures
            r == (self.slides()[self.slide_index as int].background is Some),
    {
        self.deck.slides[self.slide_index].background.is_some()
    }

    /// The sync file to remove on exit: only the presenter removes it.
    pub fn cleanup_sync(&self) -> (r: Option<&SyncFile>)
        ensures
            r is Some <==> (self.sync is Some && !self.is_follower),
            r matches Some(s) ==> self.sync == Some(*s),
    {
        if self.is_follower {
            return None;
        }
        match &self.sync {
            Some(s) => Some(s),
            None => None,
        }
    }

    fn write_sync(&self) -> (r: Option<(usize, usize)>)
        ensures
            r == self.sync_out(),
    {
        if self.sync.is_some() && !self.is_follower {
            Some((self.slide_index, self.reveal_count))
        } else {
            None
        }
    }

    fn start_transition(&mut self)
        ensures
            same_settings(*old(self), *final(self)),
            final(self).slide_index == old(self).slide_index,
            final(self).reveal_count == old(self).reveal_count,
            transition_started(*old(self), *final(self)),
    {
        let kind = if self.deck.meta.transition == TransitionKind::Cut {
            self.theme.default_transition
        } else {
            self.deck.meta.transition
        };
        if kind != TransitionKind::Cut {
            self.transition = Some(TransitionState::new(kind));
        }
    }

    /// "Next": reveals one more bullet, or moves to the next slide.
    /// Returns the position to send to followers, if any.
    pub fn advance(&mut self) -> (r: Option<(usize, usize)>)
        requires
            old(self).wf(),
        ensures
            final(self).wf(),
            moved_to(
                *old(self),
                *final(self),
                advance_pos(
                    old(self).slides(),
                    old(self).slide_index as int,
                    old(self).reveal_count as int,
                ),
            ),
            r == final(self).sync_out(),
    {
        let total = count_bullets(&self.deck.slides[self.slide_index]);
        if total > 0 && self.reveal_count < total {
            self.reveal_count = self.reveal_count + 1;
        } else if self.slide_index < self.deck.slides.len() - 1 {
            self.slide_index = self.slide_index + 1;
            self.reveal_count = initial_reveal(&self.deck.slides[self.slide_index]);
            self.start_transition();
        }
        self.write_sync()
    }

    /// "Previous": hides the last revealed bullet, or moves to the previous
    /// slide with all its bullets shown. Returns the position to send to
    /// followers, if any.
    pub fn go_back(&mut self) -> (r: Option<(usize, usize)>)
        requires
            old(self).wf(),
        ensures
            final(self).wf(),
            moved_to(
                *old(self),
                *final(self),
                go_back_pos(
                    old(self).slides(),
                    old(self).slide_index as int,
                    old(self).reveal_count as int,
                ),
            ),
            r == final(self).sync_out(),
    {
        let total = count_bullets(&self.deck.slides[self.slide_index]);
        if total > 0 && self.reveal_count > 0 {
            self.reveal_count = self.reveal_count - 1;
        } else if self.slide_index > 0 {
            self.slide_index = self.slide_index - 1;
            let prev = count_bullets(&self.deck.slides[self.slide_index]);
            self.reveal_count = if prev > 0 {
                prev
            } else {
                usize::MAX
            };
            self.start_transition();
        }
        self.write_sync()
    }

    /// Jumps to slide `index`, clamped to the last slide. Returns the
    /// position to send to followers, if any.
    pub fn go_to(&mut self, index: usize) -> (r: Option<(usize, usize)>)
        requires
            old(self).wf(),
        ensures
            final(self).wf(),
            moved_to(
                *old(self),
                *final(self),
                go_to_pos(
                    old(self).slides(),
                    old(self).slide_index as int,
                    old(self).reveal_count as int,
                    index as int,
                ),
            ),
            r == final(self).sync_out(),
    {
        let last = self.deck.slides.len() - 1;
        let new_index = if index < last {
            index
        } else {
            last
        };
        if new_index != self.slide_index {
            self.slide_index = new_index;
            self.reveal_count = initial_reveal(&self.deck.slides[self.slide_index]);
            self.start_transition();
        }
        self.write_sync()
    }
}

} // verus!

verus! {

/// What a key press leaves for the event loop: whether to quit, and the
/// position to send to followers, if any.
#[derive(Debug, Clone, Copy, PartialEq, Eq)]
pub struct KeyOutcome {
    pub quit: bool,
    pub sync: Option<(usize, usize)>,
}

/// The slide a typed number `n` asks for (numbers count from 1), clamped to
/// the deck.
pub open spec fn typed_target(n: nat, count: nat) -> int {
    let t = if n > 0 {
        n - 1
    } else {
        0
    };
    if t < count - 1 {
        t
    } else {
        count - 1
    }
}

/// The effect, from `a` to `b` with outcome `r`, of `action` on a presenter
/// (a follower reacts to quitting only).
pub open spec fn action_effect(a: App, b: App, action: Action, r: KeyOutcome) -> bool {
    match action {
        Action::Quit => if a.show_help {
            b == App { show_help: false, ..a } && !r.quit && r.sync is None
        } else if a.in_goto {
            &&& b == App { in_goto: false, goto_input: b.goto_input, ..a }
            &&& b.goto_input@ == Seq::<char>::empty()
            &&& !r.quit && r.sync is None
        } else {
            b == a && r.quit && r.sync is None
        },
        Action::Next => {
            &&& moved_to(a, b, advance_pos(a.slides(), a.slide_index as int, a.reveal_count as int))
            &&& !r.quit && r.sync == b.sync_out()
        },
        Action::Prev => {
            &&& moved_to(a, b, go_back_pos(a.slides(), a.slide_index as int, a.reveal_count as int))
            &&& !r.quit && r.sync == b.sync_out()
        },
        Action::First => {
            &&& moved_to(a, b, go_to_pos(a.slides(), a.slide_index as int, a.reveal_count as int, 0))
            &&& !r.quit && r.sync == b.sync_out()
        },
        Action::Last => {
            &&& moved_to(
                a,
                b,
                go_to_pos(
                    a.slides(),
                    a.slide_index as int,
                    a.reveal_count as int,
                    a.slides().len() - 1,
                ),
            )
            &&& !r.quit && r.sync == b.sync_out()
        },
        Action::TogglePresenter => {
            &&& b == App {
                mode: if a.mode == Mode::Normal {
                    Mode::Presenter
                } else {
                    Mode::Normal
                },
                ..a
            }
            &&& !r.quit && r.sync is None
        },
        Action::ToggleHelp => b == App { show_help: !a.show_help, ..a } && !r.quit && r.sync is None,
        Action::StartGoTo => {
            &&& b == App { in_goto: true, goto_input: b.goto_input, ..a }
            &&& b.goto_input@ == Seq::<char>::empty()
            &&& !r.quit && r.sync is None
        },
        Action::GoToDigit(c) => {
            &&& b == App { goto_input: b.goto_input, ..a }
            &&& b.goto_input@ == a.goto_input@.push(c)
            &&& !r.quit && r.sync is None
        },
        Action::GoToBackspace => {
            &&& b == App { goto_input: b.goto_input, ..a }
            &&& b.goto_input@ == (if a.goto_input@.len() > 0 {
                a.goto_input@.drop_last()
            } else {
                a.goto_input@
            })
            &&& !r.quit && r.sync is None
        },
        Action::GoToConfirm => {
            let typed = crate::sync::usize_of(a.goto_input@);
            let pos = match typed {
                Some(n) => go_to_pos(
                    a.slides(),
                    a.slide_index as int,
                    a.reveal_count as int,
                    typed_target(n, a.slides().len()),
                ),
                None => (a.slide_index as int, a.reveal_count as int),
            };
            &&& moved_to(a, App { in_goto: a.in_goto, goto_input: a.goto_input, ..b }, pos)
            &&& !b.in_goto && b.goto_input@ == Seq::<char>::empty()
            &&& !r.quit
            &&& r.sync == (if typed is Some {
                b.sync_out()
            } else {
                None
            })
        },
        Action::GoToCancel => {
            &&& b == App { in_goto: false, goto_input: b.goto_input, ..a }
            &&& b.goto_input@ == Seq::<char>::empty()
            &&& !r.quit && r.sync is None
        },
        Action::ResetTimer => b == App { timer: b.timer, ..a } && !r.quit && r.sync is None,
        Action::Ignore => b == a && !r.quit && r.sync is None,
    }
}

impl App {
    /// Handles a key press. A follower only quits; a presenter navigates,
    /// toggles overlays and types slide numbers. A timer reset restarts the
    /// timer at the clock's reading taken for this key press (see
    /// `handle_key_at`).
    pub fn handle_key(&mut self, key: Key) -> (r: KeyOutcome)
        requires
            old(self).wf(),
        ensures
            final(self).wf(),
            old(self).is_follower ==> {
                &&& *final(self) == *old(self)
                &&& r.quit == (key_action(key, false) == Action::Quit)
                &&& r.sync is None
            },
            !old(self).is_follower ==> action_effect(
                *old(self),
                *final(self),
                key_action(key, old(self).in_goto),
                r,
            ),
    {
        let reading = now();
        self.handle_key_at(key, reading)
    }

    /// Handles a key press at the instant `clock`. A follower only quits; a
    /// presenter navigates, toggles overlays and types slide numbers, and a
    /// timer reset restarts the timer at `clock`: the timer then reads
    /// exactly `clock`, and no other key touches it.
    pub fn handle_key_at(&mut self, key: Key, clock: Instant) -> (r: KeyOutcome)
        requires
            old(self).wf(),
        ensures
            final(self).wf(),
            old(self).is_follower ==> {
                &&& *final(self) == *old(self)
                &&& r.quit == (key_action(key, false) == Action::Quit)
                &&& r.sync is None
            },
            !old(self).is_follower ==> action_effect(
                *old(self),
                *final(self),
                key_action(key, old(self).in_goto),
                r,
            ),
            !old(self).is_follower && key_action(key, old(self).in_goto) == Action::ResetTimer
                ==> final(self).timer == clock,
            key_action(key, old(self).in_goto) != Action::ResetTimer || old(self).is_follower
                ==> final(self).timer == old(self).timer,
    {
        if self.is_follower {
            let action = map_key(key, false);
            return KeyOutcome { quit: action == Action::Quit, sync: None };
        }
        let action = map_key(key, self.in_goto);
        match action {
            Action::Quit => {
                if self.show_help {
                    self.show_help = false;
                } else if self.in_goto {
                    self.in_goto = false;
                    self.goto_input = String::new();
                } else {
                    return KeyOutcome { quit: true, sync: None };
                }
                KeyOutcome { quit: false, sync: None }
            },
            Action::Next => KeyOutcome { quit: false, sync: self.advance() },
            Action::Prev => KeyOutcome { quit: false, sync: self.go_back() },
            Action::First => KeyOutcome { quit: false, sync: self.go_to(0) },
            Action::Last => {
                let last = self.deck.slides.len() - 1;
                KeyOutcome { quit: false, sync: self.go_to(last) }
            },
            Action::TogglePresenter => {
                self.mode = match self.mode {
                    Mode::Normal => Mode::Presenter,
                    Mode::Presenter => Mode::Normal,
                };
                KeyOutcome { quit: false, sync: None }
            },
            Action::ToggleHelp => {
                self.show_help = !self.show_help;
                KeyOutcome { quit: false, sync: None }
            },
            Action::StartGoTo => {
                self.in_goto = true;
                self.goto_input = String::new();
                KeyOutcome { quit: false, sync: None }
            },
            Action::GoToDigit(c) => {
                let mut cs = chars_of(self.goto_input.as_str());
                cs.push(c);
                self.goto_input = string_of(cs.as_slice());
                KeyOutcome { quit: false, sync: None }
            },
            Action::GoToBackspace => {
                let mut cs = chars_of(self.goto_input.as_str());
                cs.pop();
                self.goto_input = string_of(cs.as_slice());
                KeyOutcome { quit: false, sync: None }
            },
            Action::GoToConfirm => {
                let typed = parse_usize(chars_of(self.goto_input.as_str()).as_slice());
                let sync = match typed {
                    Some(n) => {
                        let t = if n > 0 {
                            n - 1
                        } else {
                            0
                        };
                        let last = self.deck.slides.len() - 1;
                        let target = if t < last {
                            t
                        } else {
                            last
                        };
                        self.go_to(target)
                    },
                    None => None,
                };
                self.in_goto = false;
                self.goto_input = String::new();
                KeyOutcome { quit: false, sync }
            },
            Action::GoToCancel => {
                self.in_goto = false;
                self.goto_input = String::new();
                KeyOutcome { quit: false, sync: None }
            },
            Action::ResetTimer => {
                self.timer = clock;
                KeyOutcome { quit: false, sync: None }
            },
            Action::Ignore => KeyOutcome { quit: false, sync: None },
        }
    }
}

} // verus!

verus! {

/// The position a follower takes from the presenter's `synced` one: the
/// slide (clamped to the deck) and the reveal count; a presenter, or a
/// follower that read nothing, stays where it is.
pub open spec fn follow_pos(a: App, synced: Option<(usize, usize)>) -> (int, int) {
    match synced {
        Some((slide, reveal)) => if a.is_follower && a.sync is Some {
            let last = a.slides().len() - 1;
            (if slide < last {
                slide as int
            } else {
                last
            }, reveal as int)
        } else {
            (a.slide_index as int, a.reveal_count as int)
        },
        None => (a.slide_index as int, a.reveal_count as int),
    }
}

impl App {
    /// One turn of the event loop, given whether the running transition has
    /// finished (`transition_done`): a finished transition is dropped (an
    /// unfinished one keeps playing), and a follower takes up the position
    /// `synced` that it read from the sync file (a change of slide plays a
    /// transition).
    pub fn tick_at(&mut self, synced: Option<(usize, usize)>, transition_done: bool)
        requires
            old(self).wf(),
        ensures
            final(self).wf(),
            same_settings(*old(self), *final(self)),
            final(self).slide_index == follow_pos(*old(self), synced).0,
            final(self).reveal_count == follow_pos(*old(self), synced).1,
            final(self).slide_index != old(self).slide_index ==> transition_started(
                *old(self),
                *final(self),
            ) || (transition_for(old(self).deck.meta.transition, old(self).theme.default_transition)
                == TransitionKind::Cut && final(self).transition is None),
            final(self).slide_index == old(self).slide_index ==> (final(self).transition is None
                <==> (old(self).transition is None || transition_done)),
            final(self).slide_index == old(self).slide_index && final(self).transition is Some
                ==> final(self).transition == old(self).transition,
    {
        if transition_done {
            self.transition = None;
        }
        if self.is_follower && self.sync.is_some() {
            if let Some((slide, reveal)) = synced {
                let last = self.deck.slides.len() - 1;
                let slide = if slide < last {
                    slide
                } else {
                    last
                };
                if slide != self.slide_index {
                    self.slide_index = slide;
                    self.reveal_count = reveal;
                    self.start_transition();
                } else if reveal != self.reveal_count {
                    self.reveal_count = reveal;
                }
            }
        }
    }

    /// One turn of the event loop: `tick_at` with whether the running
    /// transition has finished as the clock reads it. Whatever the clock
    /// reads, on the same slide an unfinished transition is kept or dropped
    /// only when done, none stays none, and one of zero duration is dropped.
    pub fn tick(&mut self, synced: Option<(usize, usize)>)
        requires
            old(self).wf(),
        ensures
            final(self).wf(),
            same_settings(*old(self), *final(self)),
            final(self).slide_index == follow_pos(*old(self), synced).0,
            final(self).reveal_count == follow_pos(*old(self), synced).1,
            final(self).slide_index != old(self).slide_index ==> transition_started(
                *old(self),
                *final(self),
            ) || (transition_for(old(self).deck.meta.transition, old(self).theme.default_transition)
                == TransitionKind::Cut && final(self).transition is None),
            final(self).slide_index == old(self).slide_index ==> (final(self).transition
                == old(self).transition || final(self).transition is None),
            final(self).slide_index == old(self).slide_index && old(self).transition is None
                ==> final(self).transition is None,
            final(self).slide_index == old(self).slide_index && (old(self).transition matches Some(
                t,
            ) && duration_nanos(t.duration) == 0) ==> final(self).transition is None,
    {
        let done = match &self.transition {
            Some(t) => t.is_done(),
            None => false,
        };
        self.tick_at(synced, done);
    }
}

} // verus!

verus! {

/// A reveal count that navigation can leave on slide `s`: at most its bullet
/// count when it has bullets, `usize::MAX` (everything) when it has none.
pub open spec fn reveal_in_range(s: SlideV, reveal: int) -> bool {
    if bullet_count(s) > 0 {
        (0 <= reveal && reveal <= bullet_count(s))
    } else {
        (reveal == usize::MAX as int)
    }
}

/// A position on `slides`: a slide of the deck and a reveal count in range
/// for it.
pub open spec fn valid_pos(slides: Seq<SlideV>, pos: (int, int)) -> bool {
    0 <= pos.0 < slides.len() && reveal_in_range(slides[pos.0], pos.1)
}

/// Navigation keeps positions valid: the slide a presentation opens on,
/// and every "next", "previous" and jump from a valid position.
pub proof fn lemma_navigation_stays_valid(
    slides: Seq<SlideV>,
    index: int,
    reveal: int,
    target: int,
)
    requires
        slides.len() > 0,
        valid_pos(slides, (index, reveal)),
        target >= 0,
    ensures
        valid_pos(slides, (0, opening_reveal(slides[0]) as int)),
        valid_pos(slides, advance_pos(slides, index, reveal)),
        valid_pos(slides, go_back_pos(slides, index, reveal)),
        valid_pos(slides, go_to_pos(slides, index, reveal, target)),
{
}

/// "Previous" undoes a "next" that moved: it hides the bullet just shown,
/// or returns to the slide just left, as it was left.
pub proof fn lemma_back_undoes_advance(slides: Seq<SlideV>, index: int, reveal: int)
    requires
        valid_pos(slides, (index, reveal)),
        advance_pos(slides, index, reveal) != (index, reveal),
    ensures
        go_back_pos(
            slides,
            advance_pos(slides, index, reveal).0,
            advance_pos(slides, index, reveal).1,
        ) == (index, reveal),
{
}

/// "Next" undoes a "previous" that moved: it shows the bullet just hidden,
/// or returns to the slide just left, opened afresh.
pub proof fn lemma_advance_undoes_back(slides: Seq<SlideV>, index: int, reveal: int)
    requires
        valid_pos(slides, (index, reveal)),
        go_back_pos(slides, index, reveal) != (index, reveal),
    ensures
        advance_pos(
            slides,
            go_back_pos(slides, index, reveal).0,
            go_back_pos(slides, index, reveal).1,
        ) == (index, reveal),
{
}

} // verus!

verus! {

/// A follower showing a deck of the same length takes up exactly the
/// position that a presenter sends after a move.
pub proof fn lemma_follower_matches_presenter(presenter: App, follower: App)
    requires
        presenter.wf(),
        follower.wf(),
        presenter.sync is Some,
        !presenter.is_follower,
        follower.sync is Some,
        follower.is_follower,
        follower.slides().len() == presenter.slides().len(),
    ensures
        presenter.sync_out() == Some((presenter.slide_index, presenter.reveal_count)),
        follow_pos(follower, presenter.sync_out()) == (
            presenter.slide_index as int,
            presenter.reveal_count as int,
        ),
{
}

} // verus!

verus! {

/// How long the event loop waits for a key, in milliseconds: 16 (60 fps)
/// while something animates (a transition or a block's entrance), 33
/// (30 fps) for an animated background or a follower polling the sync file,
/// 100 when idle.
pub fn frame_timeout_ms(animating: bool, background_active: bool, follower: bool) -> (r: u64)
    ensures
        r == (if animating {
            16u64
        } else if background_active || follower {
            33u64
        } else {
            100u64
        }),
{
    if animating {
        16
    } else if background_active || follower {
        33
    } else {
        100
    }
}

} // verus!

verus! {

/// The items of a block that count as bullets: a bullet list's items.
pub open spec fn block_bullets(b: BlockV) -> nat {
    match b {
        BlockV::BulletList { items } => items.len(),
        _ => 0,
    }
}

/// What of `blocks` shows with `reveal` bullets revealed, block by block
/// from the first: `None` for a block shown whole, `Some(k)` for a bullet
/// list showing its first `k` items. The slide stops at the first bullet
/// that stays hidden, so the blocks after it are not listed.
pub open spec fn reveal_plan(blocks: Seq<BlockV>, reveal: nat) -> Seq<Option<nat>>
    decreases blocks.len(),
{
    if blocks.len() == 0 {
        seq![]
    } else {
        let rest = blocks.drop_first();
        match blocks[0] {
            BlockV::BulletList { items } => if items.len() == 0 {
                seq![Some(0nat)] + reveal_plan(rest, reveal)
            } else if reveal == 0 {
                seq![]
            } else if items.len() <= reveal {
                seq![Some(items.len())] + reveal_plan(rest, (reveal - items.len()) as nat)
            } else {
                seq![Some(reveal)]
            },
            _ => seq![None] + reveal_plan(rest, reveal),
        }
    }
}

/// The number of bullets a plan shows.
pub open spec fn plan_bullets(plan: Seq<Option<nat>>) -> nat
    decreases plan.len(),
{
    if plan.len() == 0 {
        0
    } else {
        (match plan[0] {
            Some(k) => k,
            None => 0,
        }) + plan_bullets(plan.drop_first())
    }
}

/// The parts of `blocks` to draw when `reveal` bullets are revealed (see
/// [`reveal_plan`]).
pub fn visible_blocks(blocks: &[Block], reveal: usize) -> (r: Vec<Option<usize>>)
    ensures
        r@.len() == reveal_plan(blocks_v(blocks@), reveal as nat).len(),
        forall|i: int|
            0 <= i < r@.len() ==> match #[trigger] r@[i] {
                Some(k) => reveal_plan(blocks_v(blocks@), reveal as nat)[i] == Some(k as nat),
                None => reveal_plan(blocks_v(blocks@), reveal as nat)[i] is None,
            },
{
    let ghost bs = blocks_v(blocks@);
    let mut out: Vec<Option<usize>> = Vec::new();
    let mut left: usize = reveal;
    let mut i: usize = 0;
    let mut stopped = false;
    assert(bs.skip(0) =~= bs);
    while i < blocks.len() && !stopped
        invariant
            i <= blocks@.len(),
            bs == blocks_v(blocks@),
            stopped ==> out@.len() == reveal_plan(bs, reveal as nat).len(),
            out@.len() <= reveal_plan(bs, reveal as nat).len(),
            forall|j: int|
                0 <= j < out@.len() ==> match #[trigger] out@[j] {
                    Some(k) => reveal_plan(bs, reveal as nat)[j] == Some(k as nat),
                    None => reveal_plan(bs, reveal as nat)[j] is None,
                },
            !stopped ==> reveal_plan(bs, reveal as nat) == reveal_plan(bs, reveal as nat).take(
                out@.len() as int,
            ) + reveal_plan(bs.skip(i as int), left as nat),
        decreases blocks@.len() - i + (if stopped {
            0int
        } else {
            1int
        }),
    {
        let ghost rest = bs.skip(i as int);
        let ghost plan = reveal_plan(bs, reveal as nat);
        let ghost done = plan.take(out@.len() as int);
        assert(rest[0] == blocks@[i as int]@);
        assert(rest.drop_first() =~= bs.skip(i + 1));
        let ghost before = out@;
        match &blocks[i] {
            Block::BulletList { items } => {
                let n = items.len();
                if n == 0 {
                    out.push(Some(0));
                    assert(plan =~= done.push(Some(0nat)) + reveal_plan(bs.skip(i + 1), left as nat));
                } else if left == 0 {
                    stopped = true;
                    assert(plan =~= done);
                } else if n <= left {
                    out.push(Some(n));
                    assert(plan =~= done.push(Some(n as nat)) + reveal_plan(
                        bs.skip(i + 1),
                        (left - n) as nat,
                    ));
                    left = left - n;
                } else {
                    out.push(Some(left));
                    stopped = true;
                    assert(plan =~= done.push(Some(left as nat)));
                }
            },
            _ => {
                out.push(None);
                assert(plan =~= done.push(None) + reveal_plan(bs.skip(i + 1), left as nat));
            },
        }
        proof {
            assert forall|j: int| 0 <= j < out@.len() implies match #[trigger] out@[j] {
                Some(k) => plan[j] == Some(k as nat),
                None => plan[j] is None,
            } by {
                if j < before.len() {
                    assert(out@[j] == before[j]);
                }
            }
            if !stopped {
                assert(plan.take(out@.len() as int) =~= done.push(plan[before.len() as int]));
            }
        }
        i = i + 1;
    }
    proof {
        if !stopped {
            assert(bs.skip(i as int) =~= Seq::<BlockV>::empty());
            assert(reveal_plan(bs.skip(i as int), left as nat) =~= Seq::<Option<nat>>::empty());
            assert(reveal_plan(bs, reveal as nat).take(out@.len() as int) =~= reveal_plan(
                bs,
                reveal as nat,
            ));
        }
    }
    out
}

} // verus!

verus! {

proof fn lemma_bullet_total_front(bs: Seq<BlockV>)
    requires
        bs.len() > 0,
    ensures
        bullet_total(bs) == block_bullets(bs[0]) + bullet_total(bs.drop_first()),
    decreases bs.len(),
{
    if bs.len() == 1 {
        assert(bs.drop_last() =~= Seq::<BlockV>::empty());
        assert(bs.drop_first() =~= Seq::<BlockV>::empty());
    } else {
        lemma_bullet_total_front(bs.drop_last());
        assert(bs.drop_last().drop_first() =~= bs.drop_first().drop_last());
        assert(bs.drop_first().last() == bs.last());
    }
}

proof fn lemma_plan_bullets_cons(x: Option<nat>, p: Seq<Option<nat>>)
    ensures
        plan_bullets(seq![x] + p) == (match x {
            Some(k) => k,
            None => 0,
        }) + plan_bullets(p),
{
    assert((seq![x] + p).drop_first() =~= p);
}

/// Progressive reveal shows exactly as many bullets as are revealed, or all
/// of them when the count is larger.
pub proof fn lemma_reveal_shows_count(blocks: Seq<BlockV>, reveal: nat)
    ensures
        plan_bullets(reveal_plan(blocks, reveal)) == vstd::math::min(
            reveal as int,
            bullet_total(blocks) as int,
        ),
    decreases blocks.len(),
{
    if blocks.len() == 0 {
        assert(plan_bullets(reveal_plan(blocks, reveal)) == 0);
    } else {
        let rest = blocks.drop_first();
        lemma_bullet_total_front(blocks);
        match blocks[0] {
            BlockV::BulletList { items } => {
                let n = items.len();
                if n == 0 {
                    lemma_reveal_shows_count(rest, reveal);
                    lemma_plan_bullets_cons(Some(0nat), reveal_plan(rest, reveal));
                } else if reveal == 0 {
                } else if n <= reveal {
                    lemma_reveal_shows_count(rest, (reveal - n) as nat);
                    lemma_plan_bullets_cons(Some(n), reveal_plan(rest, (reveal - n) as nat));
                } else {
                    lemma_plan_bullets_cons(Some(reveal), seq![]);
                }
            },
            _ => {
                lemma_reveal_shows_count(rest, reveal);
                lemma_plan_bullets_cons(None, reveal_plan(rest, reveal));
            },
        }
    }
}

/// With every bullet revealed, every block shows whole.
pub proof fn lemma_full_reveal_shows_all(blocks: Seq<BlockV>, reveal: nat)
    requires
        reveal >= bullet_total(blocks),
    ensures
        reveal_plan(blocks, reveal).len() == blocks.len(),
        forall|i: int|
            0 <= i < blocks.len() ==> #[trigger] reveal_plan(blocks, reveal)[i] == (match blocks[i] {
                BlockV::BulletList { items } => Some(items.len()),
                _ => None,
            }),
    decreases blocks.len(),
{
    if blocks.len() > 0 {
        let rest = blocks.drop_first();
        lemma_bullet_total_front(blocks);
        let n = block_bullets(blocks[0]);
        lemma_full_reveal_shows_all(rest, (reveal - n) as nat);
        let p = reveal_plan(blocks, reveal);
        assert forall|i: int| 0 <= i < blocks.len() implies #[trigger] p[i] == (match blocks[i] {
            BlockV::BulletList { items } => Some(items.len()),
            _ => None,
        }) by {
            if i > 0 {
                assert(rest[i - 1] == blocks[i]);
            }
        }
    }
}

} // verus!
