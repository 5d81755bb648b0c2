//! Names of the animated backgrounds and the integer hash that seeds them.

use vstd::prelude::*;

use crate::text::{chars_of, seq_eq};

verus! {

/// Animated mathematical backgrounds for title slides.
#[derive(Clone, Copy, Debug, PartialEq, Eq, Structural)]
pub enum BackgroundKind {
    Matrix,
    Plasma,
    Lissajous,
    Spiral,
    Wave,
    Aurora,
    Rain,
    Noise,
    Lattice,
    Orbit,
}

/// The background a lower-case name selects, if any.
pub open spec fn background_named(name: Seq<char>) -> Option<BackgroundKind> {
    if name == "matrix"@ {
        Some(BackgroundKind::Matrix)
    } else if name == "plasma"@ {
        Some(BackgroundKind::Plasma)
    } else if name == "lissajous"@ {
        Some(BackgroundKind::Lissajous)
    } else if name == "spiral"@ {
        Some(BackgroundKind::Spiral)
    } else if name == "wave"@ {
        Some(BackgroundKind::Wave)
    } else if name == "aurora"@ {
        Some(BackgroundKind::Aurora)
    } else if name == "rain"@ {
        Some(BackgroundKind::Rain)
    } else if name == "noise"@ {
        Some(BackgroundKind::Noise)
    } else if name == "lattice"@ {
        Some(BackgroundKind::Lattice)
    } else if name == "orbit"@ {
        Some(BackgroundKind::Orbit)
    } else {
        None
    }
}

/// The documented lower-case name of each background.
pub open spec fn background_name(k: BackgroundKind) -> Seq<char> {
    match k {
        BackgroundKind::Matrix => "matrix"@,
        BackgroundKind::Plasma => "plasma"@,
        BackgroundKind::Lissajous => "lissajous"@,
        BackgroundKind::Spiral => "spiral"@,
        BackgroundKind::Wave => "wave"@,
        BackgroundKind::Aurora => "aurora"@,
        BackgroundKind::Rain => "rain"@,
        BackgroundKind::Noise => "noise"@,
        BackgroundKind::Lattice => "lattice"@,
        BackgroundKind::Orbit => "orbit"@,
    }
}

/// Looking a background up by name is a bijection with the documented names:
/// each kind's name selects that kind, and a name selects a kind only when
/// it is that kind's name (so distinct names give distinct kinds).
pub proof fn lemma_background_names(k: BackgroundKind, name: Seq<char>)
    ensures
        background_named(background_name(k)) == Some(k),
        background_named(name) == Some(k) <==> name == background_name(k),
{
    reveal_strlit("matrix");
    reveal_strlit("plasma");
    reveal_strlit("lissajous");
    reveal_strlit("spiral");
    reveal_strlit("wave");
    reveal_strlit("aurora");
    reveal_strlit("rain");
    reveal_strlit("noise");
    reveal_strlit("lattice");
    reveal_strlit("orbit");
    assert("matrix"@[0] != "plasma"@[0]);
    assert("matrix"@.len() != "lissajous"@.len());
    assert("matrix"@[0] != "spiral"@[0]);
    assert("matrix"@.len() != "wave"@.len());
    assert("matrix"@[0] != "aurora"@[0]);
    assert("matrix"@.len() != "rain"@.len());
    assert("matrix"@.len() != "noise"@.len());
    assert("matrix"@.len() != "lattice"@.len());
    assert("matrix"@.len() != "orbit"@.len());
    assert("plasma"@.len() != "lissajous"@.len());
    assert("plasma"@[0] != "spiral"@[0]);
    assert("plasma"@.len() != "wave"@.len());
    assert("plasma"@[0] != "aurora"@[0]);
    assert("plasma"@.len() != "rain"@.len());
    assert("plasma"@.len() != "noise"@.len());
    assert("plasma"@.len() != "lattice"@.len());
    assert("plasma"@.len() != "orbit"@.len());
    assert("lissajous"@.len() != "spiral"@.len());
    assert("lissajous"@.len() != "wave"@.len());
    assert("lissajous"@.len() != "aurora"@.len());
    assert("lissajous"@.len() != "rain"@.len());
    assert("lissajous"@.len() != "noise"@.len());
    assert("lissajous"@.len() != "lattice"@.len());
    assert("lissajous"@.len() != "orbit"@.len());
    assert("spiral"@.len() != "wave"@.len());
    assert("spiral"@[0] != "aurora"@[0]);
    assert("spiral"@.len() != "rain"@.len());
    assert("spiral"@.len() != "noise"@.len());
    assert("spiral"@.len() != "lattice"@.len());
    assert("spiral"@.len() != "orbit"@.len());
    assert("wave"@.len() != "aurora"@.len());
    assert("wave"@[0] != "rain"@[0]);
    assert("wave"@.len() != "noise"@.len());
    assert("wave"@.len() != "lattice"@.len());
    assert("wave"@.len() != "orbit"@.len());
    assert("aurora"@.len() != "rain"@.len());
    assert("aurora"@.len() != "noise"@.len());
    assert("aurora"@.len() != "lattice"@.len());
    assert("aurora"@.len() != "orbit"@.len());
    assert("rain"@.len() != "noise"@.len());
    assert("rain"@.len() != "lattice"@.len());
    assert("rain"@.len() != "orbit"@.len());
    assert("noise"@.len() != "lattice"@.len());
    assert("noise"@[0] != "orbit"@[0]);
    assert("lattice"@.len() != "orbit"@.len());
}

impl BackgroundKind {
    /// The background named `name` (`"matrix"`, `"plasma"`, ...), if any.
    pub fn from_chars(name: &[char]) -> (r: Option<BackgroundKind>)
        ensures
            r == background_named(name@),
    {
        if seq_eq(name, chars_of("matrix").as_slice()) {
            Some(BackgroundKind::Matrix)
        } else if seq_eq(name, chars_of("plasma").as_slice()) {
            Some(BackgroundKind::Plasma)
        } else if seq_eq(name, chars_of("lissajous").as_slice()) {
            Some(BackgroundKind::Lissajous)
        } else if seq_eq(name, chars_of("spiral").as_slice()) {
            Some(BackgroundKind::Spiral)
        } else if seq_eq(name, chars_of("wave").as_slice()) {
            Some(BackgroundKind::Wave)
        } else if seq_eq(name, chars_of("aurora").as_slice()) {
            Some(BackgroundKind::Aurora)
        } else if seq_eq(name, chars_of("rain").as_slice()) {
            Some(BackgroundKind::Rain)
        } else if seq_eq(name, chars_of("noise").as_slice()) {
            Some(BackgroundKind::Noise)
        } else if seq_eq(name, chars_of("lattice").as_slice()) {
            Some(BackgroundKind::Lattice)
        } else if seq_eq(name, chars_of("orbit").as_slice()) {
            Some(BackgroundKind::Orbit)
        } else {
            None
        }
    }

    /// The background named `name`, if any.
    pub fn from_name(name: &str) -> (r: Option<BackgroundKind>)
        ensures
            r == background_named(name@),
    {
        let cs = chars_of(name);
        Self::from_chars(cs.as_slice())
    }
}

impl std::str::FromStr for BackgroundKind {
    type Err = ();

    fn from_str(s: &str) -> (r: Result<Self, Self::Err>)
        ensures
            r == (match background_named(s@) {
                Some(k) => Ok(k),
                None => Err(()),
            }),
    {
        match Self::from_name(s) {
            Some(k) => Ok(k),
            None => Err(()),
        }
    }
}

/// SplitMix-style mix of two words, with wrapping arithmetic.
pub open spec fn hash2_spec(a: u64, b: u64) -> u64 {
    let h0 = a.wrapping_mul(6364136223846793005u64).wrapping_add(b);
    let h1 = h0 ^ (h0 >> 33u64);
    let h2 = h1.wrapping_mul(0xff51afd7ed558ccdu64);
    h2 ^ (h2 >> 33u64)
}

/// Mixes two words into a pseudorandom word; the per-cell seed of the
/// backgrounds.
pub fn hash2(a: u64, b: u64) -> (r: u64)
    ensures
        r == hash2_spec(a, b),
{
    let mut h = a.wrapping_mul(6364136223846793005).wrapping_add(b);
    h ^= h >> 33;
    h = h.wrapping_mul(0xff51afd7ed558ccd);
    h ^= h >> 33;
    h
}

} // verus!
