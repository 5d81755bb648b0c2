//! Syntax highlighting of code blocks with syntect, cached per `(code,
//! lang)`.

use vstd::prelude::*;

use std::collections::HashMap;

use crate::layout::{styled_v, StyledSpan};
use crate::text::{chars_of, lines, lines_of, seq_eq, seqs_of, string_of};
use crate::theme::{Color, Style};
use crate::util::{fnv1a, fnv1a_bytes};
use syntect::easy::HighlightLines;
use syntect::highlighting::{Theme as SynTheme, ThemeSet};
use syntect::parsing::SyntaxSet;
use vstd::string::StringSliceAdditionalSpecFns;

verus! {

#[verifier::external_type_specification]
#[verifier::external_body]
pub struct ExSyntaxSet(syntect::parsing::SyntaxSet);

#[verifier::external_type_specification]
#[verifier::external_body]
pub struct ExSynTheme(SynTheme);

#[verifier::external_type_specification]
#[verifier::external_body]
pub struct ExHighlightLines<'a>(syntect::easy::HighlightLines<'a>);

/// A highlighted run as syntect reports it: foreground and background
/// colours, font-style bits (bold 1, underline 2, italic 4) and the text.
pub type RawRun = ((u8, u8, u8), (u8, u8, u8), u8, Seq<char>);

/// What `HighlightLines::highlight_line` returns for `line` when the lines
/// `before` were fed to it first, with the bundled syntax set and the
/// `base16-ocean.dark` theme, the syntax picked by the token `lang` (plain
/// text when no syntax has that token); `None` when it reports an error.
pub uninterp spec fn syntect_line(lang: Seq<char>, before: Seq<Seq<char>>, line: Seq<char>) -> Option<
    Seq<RawRun>,
>;

/// `s` is syntect's bundled syntax set, as `SyntaxSet::load_defaults_newlines`
/// returns it.
pub uninterp spec fn bundled_syntaxes(s: SyntaxSet) -> bool;

/// `t` is syntect's bundled `base16-ocean.dark` theme.
pub uninterp spec fn ocean_theme(t: SynTheme) -> bool;

/// What a syntect line highlighter has been started with and fed: the
/// language token it was built for and the lines highlighted so far, in
/// order.
pub uninterp spec fn lines_state(h: HighlightLines<'_>) -> (Seq<char>, Seq<Seq<char>>);

/// The background colour that theme `t` sets, if any.
pub uninterp spec fn theme_bg(t: SynTheme) -> Option<(u8, u8, u8)>;

/// `SyntaxSet::load_defaults_newlines`: syntect's bundled syntaxes.
#[verifier::external_body]
fn load_syntax_set() -> (r: SyntaxSet)
    ensures
        bundled_syntaxes(r),
{
    SyntaxSet::load_defaults_newlines()
}

/// `ThemeSet::load_defaults`, and its `base16-ocean.dark` theme (bundled,
/// so the lookup does not fail).
#[verifier::external_body]
fn load_theme() -> (r: SynTheme)
    ensures
        ocean_theme(r),
{
    ThemeSet::load_defaults().themes["base16-ocean.dark"].clone()
}

/// The syntect theme's background colour (`theme.settings.background`), as
/// red, green and blue; it depends on the theme alone.
#[verifier::external_body]
fn theme_background(theme: &SynTheme) -> (r: Option<(u8, u8, u8)>)
    ensures
        r == theme_bg(*theme),
{
    theme.settings.background.map(|c| (c.r, c.g, c.b))
}

/// `HighlightLines::new` for the syntax whose token is `lang`
/// (`SyntaxSet::find_syntax_by_token`), or plain text when there is none
/// (`find_syntax_plain_text`): a highlighter built for `lang` that has been
/// fed nothing yet.
#[verifier::external_body]
fn start_lines<'a>(set: &'a SyntaxSet, theme: &'a SynTheme, lang: &str) -> (r: HighlightLines<'a>)
    requires
        bundled_syntaxes(*set),
        ocean_theme(*theme),
    ensures
        lines_state(r) == (lang@, Seq::<Seq<char>>::empty()),
{
    let syntax = set.find_syntax_by_token(lang).unwrap_or_else(|| set.find_syntax_plain_text());
    HighlightLines::new(syntax, theme)
}

/// `HighlightLines::highlight_line`: highlights the next line with the
/// bundled syntax set, each run's style converted to colours and font bits.
/// The contract names the result, which depends on the language the
/// highlighter was built for and on the lines fed before (syntect carries
/// its parse state from line to line), and records that this line was fed.
#[verifier::external_body]
fn feed_line(h: &mut HighlightLines, set: &SyntaxSet, line: &str) -> (r: Option<
    Vec<((u8, u8, u8), (u8, u8, u8), u8, String)>,
>)
    requires
        bundled_syntaxes(*set),
    ensures
        lines_state(*final(h)) == (lines_state(*old(h)).0, lines_state(*old(h)).1.push(line@)),
        match r {
            Some(runs) => syntect_line(lines_state(*old(h)).0, lines_state(*old(h)).1, line@)
                == Some(
                runs@.map_values(
                    |x: ((u8, u8, u8), (u8, u8, u8), u8, String)| (x.0, x.1, x.2, x.3@),
                ),
            ),
            None => syntect_line(lines_state(*old(h)).0, lines_state(*old(h)).1, line@) is None,
        },
{
    match h.highlight_line(line, set) {
        Ok(runs) => Some(
            runs.into_iter().map(
                |(s, t)| (
                    (s.foreground.r, s.foreground.g, s.foreground.b),
                    (s.background.r, s.background.g, s.background.b),
                    s.font_style.bits(),
                    t.to_string(),
                ),
            ).collect(),
        ),
        Err(_) => None,
    }
}

/// The style of a syntect run: its colours, bold when bit 1 is set, italic
/// when bit 4 is.
pub open spec fn run_style(run: RawRun) -> Style {
    Style {
        fg: Some(Color::Rgb(run.0.0, run.0.1, run.0.2)),
        bg: Some(Color::Rgb(run.1.0, run.1.1, run.1.2)),
        bold: run.2 & 1 != 0,
        italic: run.2 & 4 != 0,
    }
}

/// The styled runs of one line.
pub open spec fn styled_runs(runs: Seq<RawRun>) -> Seq<(Seq<char>, Style)> {
    runs.map_values(|x: RawRun| (x.3, run_style(x)))
}

/// The highlighting of line `i` of `code`: syntect's runs for it after the
/// lines before it, styled; no runs when syntect reports an error.
pub open spec fn highlighted_line(code: Seq<char>, lang: Seq<char>, i: int) -> Seq<(Seq<char>, Style)> {
    match syntect_line(lang, lines_of(code).take(i), lines_of(code)[i]) {
        Some(runs) => styled_runs(runs),
        None => Seq::empty(),
    }
}

/// The highlighting of `code` in language `lang`: one run list per line
/// (as `str::lines` splits it).
pub open spec fn highlighted(code: Seq<char>, lang: Seq<char>) -> Seq<Seq<(Seq<char>, Style)>> {
    Seq::new(lines_of(code).len(), |i: int| highlighted_line(code, lang, i))
}

/// The cache key of `(code, lang)`: FNV-1a of the code mixed with that of
/// the language.
pub open spec fn code_key(code: Seq<char>, lang: Seq<char>) -> u64 {
    fnv1a_bytes(vstd::utf8::encode_utf8(code)) ^ fnv1a_bytes(vstd::utf8::encode_utf8(lang)).wrapping_mul(
        0x9E3779B97F4A7C15u64,
    )
}

/// A cache entry: the code and language it was highlighted for, and the
/// lines.
pub type CodeEntry = (String, String, Vec<Vec<StyledSpan>>);

/// The view of a cache entry.
pub open spec fn code_entry_v(e: CodeEntry) -> (Seq<char>, Seq<char>, Seq<Seq<(Seq<char>, Style)>>) {
    (e.0@, e.1@, e.2@.map_values(|l: Vec<StyledSpan>| styled_v(l@)))
}

/// The cache after highlighting `(code, lang)`: the entry under its key
/// holds that code, language and highlighting; every other entry is kept.
pub open spec fn after_highlight(
    c: Map<u64, (Seq<char>, Seq<char>, Seq<Seq<(Seq<char>, Style)>>)>,
    code: Seq<char>,
    lang: Seq<char>,
) -> Map<u64, (Seq<char>, Seq<char>, Seq<Seq<(Seq<char>, Style)>>)> {
    c.insert(code_key(code, lang), (code, lang, highlighted(code, lang)))
}

/// Syntax highlighter backed by syntect, with the bundled syntaxes and the
/// `base16-ocean.dark` theme. Caches results per `(code, lang)`.
pub struct Highlighter {
    syntax_set: SyntaxSet,
    theme: SynTheme,
    cache: HashMap<u64, CodeEntry>,
}

fn rgb(c: (u8, u8, u8)) -> (r: Color)
    ensures
        r == Color::Rgb(c.0, c.1, c.2),
{
    Color::Rgb(c.0, c.1, c.2)
}

fn styled_line(runs: Vec<((u8, u8, u8), (u8, u8, u8), u8, String)>) -> (r: Vec<StyledSpan>)
    ensures
        styled_v(r@) == styled_runs(
            runs@.map_values(|x: ((u8, u8, u8), (u8, u8, u8), u8, String)| (x.0, x.1, x.2, x.3@)),
        ),
{
    let ghost rv = runs@.map_values(
        |x: ((u8, u8, u8), (u8, u8, u8), u8, String)| (x.0, x.1, x.2, x.3@),
    );
    let mut out: Vec<StyledSpan> = Vec::new();
    let mut i: usize = 0;
    while i < runs.len()
        invariant
            i <= runs@.len(),
            rv == runs@.map_values(
                |x: ((u8, u8, u8), (u8, u8, u8), u8, String)| (x.0, x.1, x.2, x.3@),
            ),
            styled_v(out@) == styled_runs(rv.take(i as int)),
        decreases runs@.len() - i,
    {
        let run = &runs[i];
        let style = Style {
            fg: Some(rgb(run.0)),
            bg: Some(rgb(run.1)),
            bold: run.2 & 1 != 0,
            italic: run.2 & 4 != 0,
        };
        let span = StyledSpan { text: run.3.clone(), style };
        proof {
            assert(rv[i as int] == (run.0, run.1, run.2, run.3@));
            assert(rv.take(i + 1) =~= rv.take(i as int).push(rv[i as int]));
            assert(span@ == (rv[i as int].3, run_style(rv[i as int])));
            assert(styled_runs(rv.take(i + 1)) =~= styled_runs(rv.take(i as int)).push(span@));
        }
        let ghost before = out@;
        out.push(span);
        assert(out@ =~= before.push(span));
        assert(styled_v(out@) =~= styled_v(before).push(span@));
        i = i + 1;
    }
    assert(rv.take(i as int) =~= rv);
    out
}

impl Highlighter {
    /// The cache's entries, by key: code, language and highlighted lines.
    pub closed spec fn cached(&self) -> Map<u64, (Seq<char>, Seq<char>, Seq<Seq<(Seq<char>, Style)>>)> {
        self.cache@.map_values(|e: CodeEntry| code_entry_v(e))
    }

    /// The highlighter holds the bundled syntaxes and theme, and every entry
    /// sits under its key and holds its code's highlighting.
    #[verifier::type_invariant]
    spec fn entries_highlighted(self) -> bool {
        &&& bundled_syntaxes(self.syntax_set)
        &&& ocean_theme(self.theme)
        &&& forall|k: u64|
            #![trigger self.cache@[k]]
            self.cache@.contains_key(k) ==> {
                let e = code_entry_v(self.cache@[k]);
                &&& code_key(e.0, e.1) == k
                &&& e.2 == highlighted(e.0, e.1)
            }
    }

    /// A highlighter with the bundled syntax set and the `base16-ocean.dark`
    /// colour theme, and an empty cache.
    pub fn new() -> (r: Self)
        ensures
            r.cached() == Map::<u64, (Seq<char>, Seq<char>, Seq<Seq<(Seq<char>, Style)>>)>::empty(),
            r.has_ocean_theme(),
    {
        let cache: HashMap<u64, CodeEntry> = HashMap::new();
        let r = Highlighter { syntax_set: load_syntax_set(), theme: load_theme(), cache };
        assert(r.cached() =~= Map::<u64, (Seq<char>, Seq<char>, Seq<Seq<(Seq<char>, Style)>>)>::empty());
        r
    }

    /// The background colour of the theme the highlighter uses.
    pub closed spec fn background(&self) -> Option<(u8, u8, u8)> {
        theme_bg(self.theme)
    }

    /// The highlighter holds syntect's bundled `base16-ocean.dark` theme.
    pub closed spec fn has_ocean_theme(&self) -> bool {
        ocean_theme(self.theme)
    }

    /// The syntect theme's background colour, for code block backgrounds.
    pub fn bg_color(&self) -> (r: Option<Color>)
        ensures
            r == (match self.background() {
                Some(c) => Some(Color::Rgb(c.0, c.1, c.2)),
                None => None,
            }),
    {
        match theme_background(&self.theme) {
            Some(c) => Some(rgb(c)),
            None => None,
        }
    }

    /// The number of cached highlightings.
    pub fn cache_len(&self) -> (r: usize)
        ensures
            r == self.cached().len(),
    {
        broadcast use vstd::std_specs::hash::group_hash_axioms;

        assert(self.cached().dom() =~= self.cache@.dom());
        self.cache.len()
    }

    /// The cache key of `(code, lang)`.
    fn key_of(code: &str, lang: &str) -> (r: u64)
        ensures
            r == code_key(code@, lang@),
    {
        fnv1a(code) ^ fnv1a(lang).wrapping_mul(0x9E3779B97F4A7C15)
    }

    /// Highlights every line of `code` as `lang`.
    fn compute(&self, code: &str, lang: &str) -> (r: Vec<Vec<StyledSpan>>)
        ensures
            r@.map_values(|l: Vec<StyledSpan>| styled_v(l@)) == highlighted(code@, lang@),
    {
        let cs = chars_of(code);
        let ls = lines(cs.as_slice());
        let ghost all = lines_of(code@);
        assert(seqs_of(ls@) == all);
        proof {
            use_type_invariant(self);
        }
        let mut feed = start_lines(&self.syntax_set, &self.theme, lang);
        assert(all.take(0) =~= Seq::<Seq<char>>::empty());
        let mut out: Vec<Vec<StyledSpan>> = Vec::new();
        let mut i: usize = 0;
        while i < ls.len()
            invariant
                i <= ls@.len(),
                seqs_of(ls@) == all,
                all == lines_of(code@),
                bundled_syntaxes(self.syntax_set),
                lines_state(feed) == (lang@, all.take(i as int)),
                out@.len() == i,
                forall|j: int|
                    0 <= j < i ==> #[trigger] styled_v(out@[j]@) == highlighted_line(code@, lang@, j),
            decreases ls@.len() - i,
        {
            let text = string_of(ls[i].as_slice());
            assert(all[i as int] == ls@[i as int]@);
            let runs = feed_line(&mut feed, &self.syntax_set, text.as_str());
            assert(text@ == all[i as int]);
            let row = match runs {
                Some(rs) => styled_line(rs),
                None => Vec::new(),
            };
            proof {
                assert(all.take(i + 1) =~= all.take(i as int).push(all[i as int]));
                if row@.len() == 0 {
                    assert(styled_v(row@) =~= Seq::<(Seq<char>, Style)>::empty());
                }
            }
            out.push(row);
            i = i + 1;
        }
        assert(out@.map_values(|l: Vec<StyledSpan>| styled_v(l@)) =~= highlighted(code@, lang@));
        out
    }

    /// Highlights `code` as `lang`: one run list per source line, each run
    /// styled with its colours and its bold and italic bits. Results are
    /// cached per `(code, lang)`; a key that another code or language holds
    /// is recomputed, and a hit on the same code and language leaves the
    /// cache as it was.
    pub fn highlight(&mut self, code: &str, lang: &str) -> (r: &[Vec<StyledSpan>])
        ensures
            r@.map_values(|l: Vec<StyledSpan>| styled_v(l@)) == highlighted(code@, lang@),
            r@.len() == lines_of(code@).len(),
            final(self).cached() == after_highlight(old(self).cached(), code@, lang@),
            old(self).cached().contains_key(code_key(code@, lang@)) && old(self).cached()[code_key(
                code@,
                lang@,
            )].0 == code@ && old(self).cached()[code_key(code@, lang@)].1 == lang@
                ==> final(self).cached() == old(self).cached(),
    {
        broadcast use vstd::std_specs::hash::group_hash_axioms;

        proof {
            use_type_invariant(&*self);
        }
        let key = Self::key_of(code, lang);
        let hit = match self.cache.get(&key) {
            Some(e) => seq_eq(chars_of(e.0.as_str()).as_slice(), chars_of(code).as_slice())
                && seq_eq(chars_of(e.1.as_str()).as_slice(), chars_of(lang).as_slice()),
            None => false,
        };
        if hit {
            proof {
                let e = code_entry_v(self.cache@[key]);
                assert(self.cached().insert(key, e) =~= self.cached());
            }
        } else {
            let rows = self.compute(code, lang);
            let ghost rv = rows;
            let mut cache: HashMap<u64, CodeEntry> = HashMap::new();
            std::mem::swap(&mut cache, &mut self.cache);
            cache.insert(key, (code.to_string(), lang.to_string(), rows));
            proof {
                assert(cache@.map_values(|e: CodeEntry| code_entry_v(e)) =~= after_highlight(
                    old(self).cached(),
                    code@,
                    lang@,
                ));
                assert forall|k: u64|
                    #![trigger cache@[k]]
                    cache@.contains_key(k) implies {
                        let e = code_entry_v(cache@[k]);
                        &&& code_key(e.0, e.1) == k
                        &&& e.2 == highlighted(e.0, e.1)
                    } by {
                    if k == key {
                        assert(cache@[k].2 == rv);
                    } else {
                        assert(old(self).cache@[k] == cache@[k]);
                    }
                }
            }
            self.cache = cache;
        }
        proof {
            use_type_invariant(&*self);
        }
        match self.cache.get(&key) {
            Some(e) => {
                proof {
                    let v = code_entry_v(self.cache@[key]);
                    assert(v.2.len() == e.2@.len());
                }
                e.2.as_slice()
            },
            None => {
                proof {
                    assert(false);
                }
                &[]
            },
        }
    }
}

/// Highlighting the same code twice in a row leaves the cache as the first
/// highlighting left it, and a highlighting keeps every entry under another
/// key.
pub proof fn lemma_highlight_twice(
    c: Map<u64, (Seq<char>, Seq<char>, Seq<Seq<(Seq<char>, Style)>>)>,
    code: Seq<char>,
    lang: Seq<char>,
)
    ensures
        after_highlight(after_highlight(c, code, lang), code, lang) == after_highlight(c, code, lang),
        forall|k: u64|
            k != code_key(code, lang) && c.contains_key(k) ==> #[trigger] after_highlight(
                c,
                code,
                lang,
            )[k] == c[k] && after_highlight(c, code, lang).contains_key(k),
{
    let a = after_highlight(c, code, lang);
    assert(a.insert(code_key(code, lang), (code, lang, highlighted(code, lang))) =~= a);
}

} // verus!
