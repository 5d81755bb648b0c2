//! Big ASCII-art text for H1 headings.

use vstd::prelude::*;

use std::collections::HashMap;

use crate::glyphs::{BLOCK_GLYPHS, LARGE_GLYPHS};
use crate::text::{chars_of, push_all, seq_eq, string_of, strings_v};
use crate::util::{fnv1a, fnv1a_bytes};
use vstd::utf8::encode_utf8;

verus! {

/// Font style for H1 big text.
#[derive(Clone, Copy, Debug, PartialEq, Eq, Structural, Hash)]
pub enum FontStyle {
    /// Heavy block characters, 5 rows — hacker/catppuccin
    Block,
    /// Large clean block characters, 7 rows — corporate/minimal
    Large,
}

impl Default for FontStyle {
    fn default() -> (r: Self)
        ensures
            r == FontStyle::Block,
    {
        FontStyle::Block
    }
}

/// `c` with ASCII lower-case letters mapped to upper case, as
/// `char::to_ascii_uppercase`.
pub open spec fn ascii_upper(c: char) -> char {
    if 'a' <= c && c <= 'z' {
        ((c as u32) - 32) as char
    } else {
        c
    }
}

/// `char::to_ascii_uppercase`.
pub fn to_ascii_upper(c: char) -> (r: char)
    ensures
        r == ascii_upper(c),
{
    if 'a' <= c && c <= 'z' {
        let b = (c as u8) - 32;
        assert((c as u32) < 128);
        assert(b == (c as u32) - 32);
        b as char
    } else {
        c
    }
}

/// The entry for `c` in a glyph table: the first row set listed under `c`.
pub open spec fn glyph_lookup<const N: usize>(table: Seq<(char, [&'static str; N])>, c: char) -> Option<
    [&'static str; N],
>
    decreases table.len(),
{
    if table.len() == 0 {
        None
    } else if table[0].0 == c {
        Some(table[0].1)
    } else {
        glyph_lookup(table.drop_first(), c)
    }
}

fn lookup_in<const N: usize>(table: &[(char, [&'static str; N])], c: char) -> (r: Option<
    [&'static str; N],
>)
    ensures
        r == glyph_lookup(table@, c),
{
    let mut i: usize = 0;
    assert(table@.skip(0) == table@);
    while i < table.len()
        invariant
            i <= table@.len(),
            glyph_lookup(table@, c) == glyph_lookup(table@.skip(i as int), c),
        decreases table@.len() - i,
    {
        assert(table@.skip(i as int).drop_first() == table@.skip(i + 1));
        if table[i].0 == c {
            return Some(table[i].1);
        }
        i = i + 1;
    }
    None
}

/// The 5-row block-font glyph for `c` (letters of either case), if the font
/// has one.
pub fn glyph_block(c: char) -> (r: Option<[&'static str; 5]>)
    ensures
        r == glyph_lookup(BLOCK_GLYPHS@, ascii_upper(c)),
{
    let t = BLOCK_GLYPHS;
    lookup_in(&t, to_ascii_upper(c))
}

/// The 7-row large-font glyph for `c` (letters of either case), if the font
/// has one.
pub fn glyph_large(c: char) -> (r: Option<[&'static str; 7]>)
    ensures
        r == glyph_lookup(LARGE_GLYPHS@, ascii_upper(c)),
{
    let t = LARGE_GLYPHS;
    lookup_in(&t, to_ascii_upper(c))
}

/// What `str::to_uppercase` returns for `s`.
pub uninterp spec fn uppercase(s: Seq<char>) -> Seq<char>;

/// `str::to_uppercase`: the full Unicode upper-casing, named by its result.
#[verifier::external_body]
fn to_uppercase(s: &str) -> (r: String)
    ensures
        r@ == uppercase(s@),
{
    s.to_uppercase()
}

/// The glyph of every character of `text`, or `None` if one has none.
pub open spec fn glyphs_for<const N: usize>(
    table: Seq<(char, [&'static str; N])>,
    text: Seq<char>,
) -> Option<Seq<[&'static str; N]>>
    decreases text.len(),
{
    if text.len() == 0 {
        Some(seq![])
    } else {
        match (glyphs_for(table, text.drop_last()), glyph_lookup(table, ascii_upper(text.last()))) {
            (Some(gs), Some(g)) => Some(gs.push(g)),
            _ => None,
        }
    }
}

/// `parts` joined with single spaces, as `[&str]::join(" ")`.
pub open spec fn join_spaced(parts: Seq<Seq<char>>) -> Seq<char>
    decreases parts.len(),
{
    if parts.len() == 0 {
        seq![]
    } else if parts.len() == 1 {
        parts[0]
    } else {
        join_spaced(parts.drop_last()) + seq![' '] + parts.last()
    }
}

/// Row `row` of a line of glyphs: each glyph's row, joined with spaces.
pub open spec fn glyph_row<const N: usize>(glyphs: Seq<[&'static str; N]>, row: int) -> Seq<char> {
    join_spaced(glyphs.map_values(|g: [&'static str; N]| g@[row]@))
}

/// The rows `text` renders to with a glyph table of `N` rows: every row of the
/// glyphs when each character has one, else the upper-cased text alone.
pub open spec fn render_rows<const N: usize>(
    table: Seq<(char, [&'static str; N])>,
    text: Seq<char>,
) -> Seq<Seq<char>> {
    match glyphs_for(table, text) {
        Some(gs) => if gs.len() > 0 {
            Seq::new(N as nat, |row: int| glyph_row(gs, row))
        } else {
            seq![uppercase(text)]
        },
        None => seq![uppercase(text)],
    }
}

/// The rows `text` renders to in `style`.
pub open spec fn render_spec(text: Seq<char>, style: FontStyle) -> Seq<Seq<char>> {
    match style {
        FontStyle::Block => render_rows(BLOCK_GLYPHS@, text),
        FontStyle::Large => render_rows(LARGE_GLYPHS@, text),
    }
}

fn glyphs_of<const N: usize>(table: &[(char, [&'static str; N])], text: &[char]) -> (r: Option<
    Vec<[&'static str; N]>,
>)
    ensures
        match r {
            Some(v) => glyphs_for(table@, text@) == Some(v@),
            None => glyphs_for(table@, text@) is None,
        },
{
    let mut out: Vec<[&'static str; N]> = Vec::new();
    let mut i: usize = 0;
    assert(text@.take(0) =~= seq![]);
    while i < text.len()
        invariant
            i <= text@.len(),
            glyphs_for(table@, text@.take(i as int)) == Some(out@),
        decreases text@.len() - i,
    {
        assert(text@.take(i + 1).drop_last() =~= text@.take(i as int));
        match lookup_in(table, to_ascii_upper(text[i])) {
            Some(g) => {
                out.push(g);
            },
            None => {
                proof {
                    lemma_glyphs_for_prefix_none(table@, text@, i as int + 1);
                }
                return None;
            },
        }
        i = i + 1;
    }
    assert(text@.take(i as int) =~= text@);
    Some(out)
}

proof fn lemma_glyphs_for_prefix_none<const N: usize>(
    table: Seq<(char, [&'static str; N])>,
    text: Seq<char>,
    k: int,
)
    requires
        0 < k <= text.len(),
        glyphs_for(table, text.take(k)) is None,
    ensures
        glyphs_for(table, text) is None,
    decreases text.len(),
{
    if k < text.len() {
        assert(text.drop_last().take(k) =~= text.take(k));
        lemma_glyphs_for_prefix_none(table, text.drop_last(), k);
    } else {
        assert(text.take(k) =~= text);
    }
}

fn join_row<const N: usize>(glyphs: &Vec<[&'static str; N]>, row: usize) -> (r: Vec<char>)
    requires
        row < N,
    ensures
        r@ == glyph_row(glyphs@, row as int),
{
    let mut out: Vec<char> = Vec::new();
    let mut i: usize = 0;
    while i < glyphs.len()
        invariant
            row < N,
            i <= glyphs@.len(),
            out@ == glyph_row(glyphs@.take(i as int), row as int),
        decreases glyphs@.len() - i,
    {
        let ghost prev = glyphs@.take(i as int).map_values(|g: [&'static str; N]| g@[row as int]@);
        let ghost next = glyphs@.take(i + 1).map_values(|g: [&'static str; N]| g@[row as int]@);
        assert(next.drop_last() =~= prev);
        if i > 0 {
            out.push(' ');
        }
        let piece = chars_of(glyphs[i][row]);
        push_all(&mut out, piece.as_slice());
        proof {
            if i == 0 {
                assert(next =~= seq![piece@]);
            }
        }
        i = i + 1;
    }
    assert(glyphs@.take(i as int) =~= glyphs@);
    out
}

fn render_with<const N: usize>(text: &str, table: &[(char, [&'static str; N])]) -> (r: Vec<String>)
    ensures
        strings_v(r@) == render_rows(table@, text@),
{
    let cs = chars_of(text);
    match glyphs_of(table, cs.as_slice()) {
        Some(gs) => {
            if gs.len() == 0 {
                let u = to_uppercase(text);
                let r = vec![u];
                assert(strings_v(r@) =~= seq![uppercase(text@)]);
                return r;
            }
            let mut out: Vec<String> = Vec::new();
            let mut row: usize = 0;
            while row < N
                invariant
                    row <= N,
                    glyphs_for(table@, text@) == Some(gs@),
                    gs@.len() > 0,
                    strings_v(out@) =~= Seq::new(row as nat, |k: int| glyph_row(gs@, k)),
                decreases N - row,
            {
                let line = join_row(&gs, row);
                let ghost before = strings_v(out@);
                let st = string_of(line.as_slice());
                out.push(st);
                assert(strings_v(out@) =~= before.push(line@));
                row = row + 1;
            }
            out
        },
        None => {
            let u = to_uppercase(text);
            let r = vec![u];
            assert(strings_v(r@) =~= seq![uppercase(text@)]);
            r
        },
    }
}

/// Renders `text` as big-text rows: one row per glyph row when every
/// character has a glyph, otherwise the upper-cased text on a single row.
pub fn render(text: &str, style: FontStyle) -> (r: Vec<String>)
    ensures
        strings_v(r@) == render_spec(text@, style),
{
    match style {
        FontStyle::Block => {
            let t = BLOCK_GLYPHS;
            render_with(text, &t)
        },
        FontStyle::Large => {
            let t = LARGE_GLYPHS;
            render_with(text, &t)
        },
    }
}

/// The cache key of `(text, font)`: FNV-1a of the text mixed with the font.
pub open spec fn cache_key_spec(text: Seq<char>, font: FontStyle) -> u64 {
    let bits: u64 = match font {
        FontStyle::Block => 0,
        FontStyle::Large => 1,
    };
    fnv1a_bytes(encode_utf8(text)) ^ bits.wrapping_mul(0x9E3779B97F4A7C15u64)
}

/// The cache key of `(text, font)`.
pub fn cache_key(text: &str, font: FontStyle) -> (r: u64)
    ensures
        r == cache_key_spec(text@, font),
{
    let font_bits: u64 = match font {
        FontStyle::Block => 0,
        FontStyle::Large => 1,
    };
    fnv1a(text) ^ font_bits.wrapping_mul(0x9E3779B97F4A7C15)
}

/// An entry of the cache: the text and font it was rendered for, and the
/// rows.
pub type CacheEntry = (String, FontStyle, Vec<String>);

/// The view of a cache entry.
pub open spec fn entry_v(e: CacheEntry) -> (Seq<char>, FontStyle, Seq<Seq<char>>) {
    (e.0@, e.1, strings_v(e.2@))
}

/// The cache after rendering `(text, font)`: the entry under its key holds
/// that text, font and rendering; every other entry is kept.
pub open spec fn after_render(
    c: Map<u64, (Seq<char>, FontStyle, Seq<Seq<char>>)>,
    text: Seq<char>,
    font: FontStyle,
) -> Map<u64, (Seq<char>, FontStyle, Seq<Seq<char>>)> {
    c.insert(cache_key_spec(text, font), (text, font, render_spec(text, font)))
}

/// Cache for `render` results so an unchanging H1 isn't re-rasterized every
/// frame. Keyed by [`cache_key`]; each entry keeps the text and font it was
/// rendered for, so a key collision just triggers a recompute.
pub struct BigtextCache {
    entries: HashMap<u64, CacheEntry>,
}

impl BigtextCache {
    /// Every entry sits under its text's key and holds that text's rendering.
    #[verifier::type_invariant]
    spec fn entries_rendered(self) -> bool {
        forall|k: u64|
            #![trigger self.entries@[k]]
            self.entries@.contains_key(k) ==> {
                let e = entry_v(self.entries@[k]);
                &&& cache_key_spec(e.0, e.1) == k
                &&& e.2 == render_spec(e.0, e.1)
            }
    }

    /// The cached entries, by key: text, font and rows.
    pub closed spec fn cached(&self) -> Map<u64, (Seq<char>, FontStyle, Seq<Seq<char>>)> {
        self.entries@.map_values(|e: CacheEntry| entry_v(e))
    }

    /// An empty cache.
    pub fn new() -> (r: Self)
        ensures
            r.cached() == Map::<u64, (Seq<char>, FontStyle, Seq<Seq<char>>)>::empty(),
    {
        let entries: HashMap<u64, CacheEntry> = HashMap::new();
        let r = BigtextCache { entries };
        assert(r.cached() =~= Map::<u64, (Seq<char>, FontStyle, Seq<Seq<char>>)>::empty());
        r
    }

    /// Returns the rendered rows for `(text, font)`, computing and caching on
    /// a miss or when another text holds the key. The rows are always those
    /// of `render(text, font)`; a hit on the same text and font leaves the
    /// cache as it was.
    pub fn render(&mut self, text: &str, font: FontStyle) -> (r: &[String])
        ensures
            strings_v(r@) == render_spec(text@, font),
            final(self).cached() == after_render(old(self).cached(), text@, font),
            old(self).cached().contains_key(cache_key_spec(text@, font)) && old(self).cached()[
                cache_key_spec(text@, font)].0 == text@ && old(self).cached()[cache_key_spec(
                text@,
                font,
            )].1 == font ==> final(self).cached() == old(self).cached(),
    {
        broadcast use vstd::std_specs::hash::group_hash_axioms;

        proof {
            use_type_invariant(&*self);
        }
        let key = cache_key(text, font);
        let hit = match self.entries.get(&key) {
            Some(e) => e.1 == font && seq_eq(chars_of(e.0.as_str()).as_slice(), chars_of(text).as_slice()),
            None => false,
        };
        if hit {
            proof {
                let e = entry_v(self.entries@[key]);
                assert(e.0 == text@ && e.1 == font);
                assert(self.cached().insert(key, e) =~= self.cached());
            }
        } else {
            let rows = render(text, font);
            let ghost rv = rows;
            let mut entries: HashMap<u64, CacheEntry> = HashMap::new();
            std::mem::swap(&mut entries, &mut self.entries);
            entries.insert(key, (text.to_string(), font, rows));
            proof {
                assert(entries@.map_values(|e: CacheEntry| entry_v(e)) =~= after_render(
                    old(self).cached(),
                    text@,
                    font,
                ));
                assert forall|k: u64|
                    #![trigger entries@[k]]
                    entries@.contains_key(k) implies {
                        let e = entry_v(entries@[k]);
                        &&& cache_key_spec(e.0, e.1) == k
                        &&& e.2 == render_spec(e.0, e.1)
                    } by {
                    if k == key {
                        assert(entries@[k].2 == rv);
                    } else {
                        assert(old(self).entries@[k] == entries@[k]);
                    }
                }
            }
            self.entries = entries;
        }
        proof {
            use_type_invariant(&*self);
        }
        match self.entries.get(&key) {
            Some(e) => e.2.as_slice(),
            None => {
                proof {
                    assert(false);
                }
                &[]
            },
        }
    }
}

/// Rendering the same text twice in a row leaves the cache as the first
/// rendering left it, and a rendering keeps every entry under another key.
pub proof fn lemma_render_twice(
    c: Map<u64, (Seq<char>, FontStyle, Seq<Seq<char>>)>,
    text: Seq<char>,
    font: FontStyle,
)
    ensures
        after_render(after_render(c, text, font), text, font) == after_render(c, text, font),
        forall|k: u64|
            k != cache_key_spec(text, font) && c.contains_key(k) ==> #[trigger] after_render(
                c,
                text,
                font,
            )[k] == c[k] && after_render(c, text, font).contains_key(k),
        after_render(c, text, font).dom().len() <= c.dom().len() + 1 || !c.dom().finite(),
{
    let a = after_render(c, text, font);
    assert(a.insert(cache_key_spec(text, font), (text, font, render_spec(text, font))) =~= a);
}

} // verus!

verus! {

/// `text` with its ASCII lower-case letters made upper-case.
pub open spec fn ascii_upper_all(text: Seq<char>) -> Seq<char> {
    text.map_values(|c: char| ascii_upper(c))
}

proof fn lemma_ascii_upper_idempotent(c: char)
    ensures
        ascii_upper(ascii_upper(c)) == ascii_upper(c),
{
    if 'a' <= c && c <= 'z' {
        let u = ((c as u32) - 32) as char;
        assert(u as u32 == (c as u32) - 32);
        assert(!('a' <= u && u <= 'z'));
    }
}

proof fn lemma_glyphs_ignore_case<const N: usize>(
    table: Seq<(char, [&'static str; N])>,
    text: Seq<char>,
)
    ensures
        glyphs_for(table, text) == glyphs_for(table, ascii_upper_all(text)),
    decreases text.len(),
{
    if text.len() > 0 {
        assert(ascii_upper_all(text).drop_last() =~= ascii_upper_all(text.drop_last()));
        lemma_glyphs_ignore_case(table, text.drop_last());
        lemma_ascii_upper_idempotent(text.last());
    }
}

/// Big text ignores the case of ASCII letters: when every character of
/// `text` has a glyph, `text` renders exactly as its upper-cased form does.
pub proof fn lemma_render_ignores_case(text: Seq<char>, style: FontStyle)
    requires
        text.len() > 0,
        match style {
            FontStyle::Block => glyphs_for(BLOCK_GLYPHS@, text) is Some,
            FontStyle::Large => glyphs_for(LARGE_GLYPHS@, text) is Some,
        },
    ensures
        render_spec(text, style) == render_spec(ascii_upper_all(text), style),
{
    lemma_glyphs_ignore_case(BLOCK_GLYPHS@, text);
    lemma_glyphs_ignore_case(LARGE_GLYPHS@, text);
    lemma_glyphs_len(BLOCK_GLYPHS@, text);
    lemma_glyphs_len(LARGE_GLYPHS@, text);
}

proof fn lemma_glyphs_len<const N: usize>(table: Seq<(char, [&'static str; N])>, text: Seq<char>)
    ensures
        glyphs_for(table, text) matches Some(gs) ==> gs.len() == text.len(),
    decreases text.len(),
{
    if text.len() > 0 {
        lemma_glyphs_len(table, text.drop_last());
    }
}

} // verus!
