//! Slide-to-slide transitions: their kinds and the state of a running one.

use vstd::prelude::*;

use std::time::{Duration, Instant};

use crate::clock::{duration_from_millis, duration_nanos, elapsed_since, millis_duration, nanos_of, now};
use crate::text::{chars_of, seq_eq};

verus! {

/// The overlay that runs when the slide changes.
#[derive(Clone, Copy, Debug, PartialEq, Eq, Structural)]
pub enum TransitionKind {
    /// No overlay: the new slide appears at once.
    Cut,
    Glitch,
    Fade,
    Wipe,
    Dissolve,
}

impl Default for TransitionKind {
    fn default() -> (r: Self)
        ensures
            r == TransitionKind::Cut,
    {
        TransitionKind::Cut
    }
}

/// The transition a lower-case name selects, if any.
pub open spec fn transition_named(name: Seq<char>) -> Option<TransitionKind> {
    if name == "none"@ {
        Some(TransitionKind::Cut)
    } else if name == "glitch"@ {
        Some(TransitionKind::Glitch)
    } else if name == "fade"@ {
        Some(TransitionKind::Fade)
    } else if name == "wipe"@ {
        Some(TransitionKind::Wipe)
    } else if name == "dissolve"@ {
        Some(TransitionKind::Dissolve)
    } else {
        None
    }
}

/// The documented lower-case name of each transition.
pub open spec fn transition_name(k: TransitionKind) -> Seq<char> {
    match k {
        TransitionKind::Cut => "none"@,
        TransitionKind::Glitch => "glitch"@,
        TransitionKind::Fade => "fade"@,
        TransitionKind::Wipe => "wipe"@,
        TransitionKind::Dissolve => "dissolve"@,
    }
}

/// Looking a transition up by name is a bijection with the documented names:
/// each kind's name selects that kind, and a name selects a kind only when
/// it is that kind's name (so distinct names give distinct kinds).
pub proof fn lemma_transition_names(k: TransitionKind, name: Seq<char>)
    ensures
        transition_named(transition_name(k)) == Some(k),
        transition_named(name) == Some(k) <==> name == transition_name(k),
{
    reveal_strlit("none");
    reveal_strlit("glitch");
    reveal_strlit("fade");
    reveal_strlit("wipe");
    reveal_strlit("dissolve");
    assert("none"@.len() != "glitch"@.len());
    assert("none"@[0] != "fade"@[0]);
    assert("none"@[0] != "wipe"@[0]);
    assert("none"@.len() != "dissolve"@.len());
    assert("glitch"@.len() != "fade"@.len());
    assert("glitch"@.len() != "wipe"@.len());
    assert("glitch"@.len() != "dissolve"@.len());
    assert("fade"@[0] != "wipe"@[0]);
    assert("fade"@.len() != "dissolve"@.len());
    assert("wipe"@.len() != "dissolve"@.len());
}

impl TransitionKind {
    /// The transition named `name` (`"none"`, `"glitch"`, ...), if any.
    pub fn from_chars(name: &[char]) -> (r: Option<TransitionKind>)
        ensures
            r == transition_named(name@),
    {
        if seq_eq(name, chars_of("none").as_slice()) {
            Some(TransitionKind::Cut)
        } else if seq_eq(name, chars_of("glitch").as_slice()) {
            Some(TransitionKind::Glitch)
        } else if seq_eq(name, chars_of("fade").as_slice()) {
            Some(TransitionKind::Fade)
        } else if seq_eq(name, chars_of("wipe").as_slice()) {
            Some(TransitionKind::Wipe)
        } else if seq_eq(name, chars_of("dissolve").as_slice()) {
            Some(TransitionKind::Dissolve)
        } else {
            None
        }
    }
}

/// A running transition: what it does, when it started, how long it lasts.
pub struct TransitionState {
    pub kind: TransitionKind,
    pub started: Instant,
    pub duration: Duration,
}

impl TransitionState {
    /// A transition of `kind` starting now and lasting 400 ms.
    pub fn new(kind: TransitionKind) -> (r: Self)
        ensures
            r.kind == kind,
            r.duration == millis_duration(400),
            duration_nanos(r.duration) == 400_000_000,
    {
        TransitionState { kind, started: now(), duration: duration_from_millis(400) }
    }

    /// Whether `elapsed`, the time since the transition started, covers its
    /// duration.
    pub fn done_after(&self, elapsed: &Duration) -> (r: bool)
        ensures
            r == (duration_nanos(*elapsed) >= duration_nanos(self.duration)),
    {
        nanos_of(elapsed) >= nanos_of(&self.duration)
    }

    /// The transition's duration has passed since it started: `done_after` of the
    /// time the clock reports as elapsed. Whatever the clock reads, a
    /// transition of zero duration is done.
    pub fn is_done(&self) -> (r: bool)
        ensures
            duration_nanos(self.duration) == 0 ==> r,
    {
        let e = elapsed_since(&self.started);
        self.done_after(&e)
    }
}

} // verus!
