//! The deck format: TOML frontmatter, slides separated by `---` lines,
//! per-slide directives in HTML comments and a two-column layout.

use vstd::prelude::*;

use crate::background::{background_named, BackgroundKind};
use crate::markdown::{blocks_v, md_blocks, parse_blocks, Block, BlockV};
use crate::text::{
    append_line, chars_of, contains_chars, contains_seq, copy_range, find_chars, find_from, strings_v,
    has_prefix, has_suffix, join_line, lemma_find_from, join_lines, join_newline, lines, lines_of, replace_chars,
    replace_seq, seq_eq, seqs_of, starts_with, ends_with, string_of, trim, trim_chars, trim_start,
    trim_start_chars,
};
use crate::theme::{theme_named, ThemeName};
use crate::transition::{transition_named, TransitionKind};

verus! {

/// A value of a top-level TOML key, reduced to what the frontmatter reads.
#[derive(Debug, Clone)]
pub enum TomlValue {
    Str(String),
    /// Any value that is not a string.
    Other,
}

/// The value of a [`TomlValue`].
pub ghost enum TomlValueV {
    Str(Seq<char>),
    Other,
}

impl View for TomlValue {
    type V = TomlValueV;

    open spec fn view(&self) -> TomlValueV {
        match self {
            TomlValue::Str(s) => TomlValueV::Str(s@),
            TomlValue::Other => TomlValueV::Other,
        }
    }
}

/// The values of a run of top-level TOML entries.
pub open spec fn entries_v(es: Seq<(String, TomlValue)>) -> Seq<(Seq<char>, TomlValueV)> {
    es.map_values(|e: (String, TomlValue)| (e.0@, e.1@))
}

/// What `toml::from_str::<toml::Table>` makes of `s`: `None` when it fails,
/// else the top-level entries in the table's order.
pub uninterp spec fn toml_table(s: Seq<char>) -> Option<Seq<(Seq<char>, TomlValueV)>>;

/// `toml::from_str::<toml::Table>`: parses `s` as a TOML document and lists
/// its top-level entries, each value reduced to a string or `Other`. The
/// contract names the result, which depends on `s` alone.
#[verifier::external_body]
fn parse_toml_table(s: &str) -> (r: Option<Vec<(String, TomlValue)>>)
    ensures
        match r {
            Some(es) => toml_table(s@) == Some(entries_v(es@)),
            None => toml_table(s@) is None,
        },
{
    match toml::from_str::<toml::Table>(s) {
        Ok(t) => Some(
            t.into_iter().map(
                |(k, v)| match v {
                    toml::Value::String(s) => (k, TomlValue::Str(s)),
                    _ => (k, TomlValue::Other),
                },
            ).collect(),
        ),
        Err(_) => None,
    }
}

/// Deck-wide settings from the frontmatter.
#[derive(Debug)]
pub struct DeckMeta {
    pub title: String,
    pub author: Option<String>,
    pub date: Option<String>,
    pub theme: ThemeName,
    pub transition: TransitionKind,
    pub background: Option<BackgroundKind>,
}

/// The value of a [`DeckMeta`].
pub ghost struct MetaV {
    pub title: Seq<char>,
    pub author: Option<Seq<char>>,
    pub date: Option<Seq<char>>,
    pub theme: ThemeName,
    pub transition: TransitionKind,
    pub background: Option<BackgroundKind>,
}

impl View for DeckMeta {
    type V = MetaV;

    open spec fn view(&self) -> MetaV {
        MetaV {
            title: self.title@,
            author: crate::markdown::opt_v(self.author),
            date: crate::markdown::opt_v(self.date),
            theme: self.theme,
            transition: self.transition,
            background: self.background,
        }
    }
}

/// The title of a deck that names none.
pub open spec fn default_title_spec() -> Seq<char> {
    "Untitled"@
}

/// The settings of a deck without usable frontmatter.
pub open spec fn default_meta() -> MetaV {
    MetaV {
        title: default_title_spec(),
        author: None,
        date: None,
        theme: ThemeName::Hacker,
        transition: TransitionKind::Cut,
        background: None,
    }
}

/// The title of a deck that names none: `"Untitled"`.
pub fn default_title() -> (r: String)
    ensures
        r@ == default_title_spec(),
{
    string_of(chars_of("Untitled").as_slice())
}

impl Default for DeckMeta {
    fn default() -> (r: Self)
        ensures
            r@ == default_meta(),
    {
        DeckMeta {
            title: default_title(),
            author: None,
            date: None,
            theme: ThemeName::Hacker,
            transition: TransitionKind::Cut,
            background: None,
        }
    }
}

/// How one top-level entry changes the settings. `title`, `author` and `date`
/// take strings; `theme`, `transition` and `background` take the name of a
/// variant. A value of the wrong kind, or an unknown name, rejects the whole
/// frontmatter (`None`); other keys are ignored.
pub open spec fn meta_step(m: Option<MetaV>, key: Seq<char>, value: TomlValueV) -> Option<MetaV> {
    match m {
        None => None,
        Some(m) => if key == "title"@ {
            match value {
                TomlValueV::Str(s) => Some(MetaV { title: s, ..m }),
                TomlValueV::Other => None,
            }
        } else if key == "author"@ {
            match value {
                TomlValueV::Str(s) => Some(MetaV { author: Some(s), ..m }),
                TomlValueV::Other => None,
            }
        } else if key == "date"@ {
            match value {
                TomlValueV::Str(s) => Some(MetaV { date: Some(s), ..m }),
                TomlValueV::Other => None,
            }
        } else if key == "theme"@ {
            match value {
                TomlValueV::Str(s) => match theme_named(s) {
                    Some(t) => Some(MetaV { theme: t, ..m }),
                    None => None,
                },
                TomlValueV::Other => None,
            }
        } else if key == "transition"@ {
            match value {
                TomlValueV::Str(s) => match transition_named(s) {
                    Some(t) => Some(MetaV { transition: t, ..m }),
                    None => None,
                },
                TomlValueV::Other => None,
            }
        } else if key == "background"@ {
            match value {
                TomlValueV::Str(s) => match background_named(s) {
                    Some(b) => Some(MetaV { background: Some(b), ..m }),
                    None => None,
                },
                TomlValueV::Other => None,
            }
        } else {
            Some(m)
        },
    }
}

/// The settings that a run of top-level entries describes, starting from the
/// defaults; `None` when an entry is rejected.
pub open spec fn meta_of_entries(es: Seq<(Seq<char>, TomlValueV)>) -> Option<MetaV>
    decreases es.len(),
{
    if es.len() == 0 {
        Some(default_meta())
    } else {
        meta_step(meta_of_entries(es.drop_last()), es.last().0, es.last().1)
    }
}

fn apply_entry(m: DeckMeta, key: &String, value: &TomlValue) -> (r: Option<DeckMeta>)
    ensures
        match r {
            Some(x) => meta_step(Some(m@), key@, value@) == Some(x@),
            None => meta_step(Some(m@), key@, value@) is None,
        },
{
    let k = chars_of(key.as_str());
    if seq_eq(k.as_slice(), chars_of("title").as_slice()) {
        match value {
            TomlValue::Str(s) => Some(DeckMeta { title: s.clone(), ..m }),
            TomlValue::Other => None,
        }
    } else if seq_eq(k.as_slice(), chars_of("author").as_slice()) {
        match value {
            TomlValue::Str(s) => Some(DeckMeta { author: Some(s.clone()), ..m }),
            TomlValue::Other => None,
        }
    } else if seq_eq(k.as_slice(), chars_of("date").as_slice()) {
        match value {
            TomlValue::Str(s) => Some(DeckMeta { date: Some(s.clone()), ..m }),
            TomlValue::Other => None,
        }
    } else if seq_eq(k.as_slice(), chars_of("theme").as_slice()) {
        match value {
            TomlValue::Str(s) => match ThemeName::from_chars(chars_of(s.as_str()).as_slice()) {
                Some(t) => Some(DeckMeta { theme: t, ..m }),
                None => None,
            },
            TomlValue::Other => None,
        }
    } else if seq_eq(k.as_slice(), chars_of("transition").as_slice()) {
        match value {
            TomlValue::Str(s) => match TransitionKind::from_chars(chars_of(s.as_str()).as_slice()) {
                Some(t) => Some(DeckMeta { transition: t, ..m }),
                None => None,
            },
            TomlValue::Other => None,
        }
    } else if seq_eq(k.as_slice(), chars_of("background").as_slice()) {
        match value {
            TomlValue::Str(s) => match BackgroundKind::from_chars(chars_of(s.as_str()).as_slice()) {
                Some(b) => Some(DeckMeta { background: Some(b), ..m }),
                None => None,
            },
            TomlValue::Other => None,
        }
    } else {
        Some(m)
    }
}

/// The settings that the top-level TOML entries `es` describe; `None` when
/// one of them is rejected.
pub fn meta_from_entries(es: &Vec<(String, TomlValue)>) -> (r: Option<DeckMeta>)
    ensures
        match r {
            Some(m) => meta_of_entries(entries_v(es@)) == Some(m@),
            None => meta_of_entries(entries_v(es@)) is None,
        },
{
    let mut m = DeckMeta::default();
    let mut i: usize = 0;
    assert(entries_v(es@).take(0) =~= seq![]);
    while i < es.len()
        invariant
            i <= es@.len(),
            meta_of_entries(entries_v(es@).take(i as int)) == Some(m@),
        decreases es@.len() - i,
    {
        assert(entries_v(es@).take(i + 1).drop_last() =~= entries_v(es@).take(i as int));
        match apply_entry(m, &es[i].0, &es[i].1) {
            Some(next) => {
                m = next;
            },
            None => {
                proof {
                    lemma_meta_rejected(entries_v(es@), i as int + 1);
                }
                return None;
            },
        }
        i = i + 1;
    }
    assert(entries_v(es@).take(i as int) =~= entries_v(es@));
    Some(m)
}

proof fn lemma_meta_rejected(es: Seq<(Seq<char>, TomlValueV)>, k: int)
    requires
        0 <= k <= es.len(),
        meta_of_entries(es.take(k)) is None,
    ensures
        meta_of_entries(es) is None,
    decreases es.len(),
{
    if k < es.len() {
        assert(es.drop_last().take(k) =~= es.take(k));
        lemma_meta_rejected(es.drop_last(), k);
    } else {
        assert(es.take(k) =~= es);
    }
}

} // verus!

verus! {

/// `s` without the `'\n'` and `'\r'` characters it starts with.
pub open spec fn strip_leading_newlines(s: Seq<char>) -> Seq<char>
    decreases s.len(),
{
    if s.len() > 0 && (s[0] == '\n' || s[0] == '\r') {
        strip_leading_newlines(s.drop_first())
    } else {
        s
    }
}

/// Where the line of `s` that starts at `p` ends: at the next `'\n'`, or at
/// the end of `s`.
pub open spec fn line_end(s: Seq<char>, p: int) -> int {
    match find_from(s, "\n"@, p) {
        Some(e) => e,
        None => s.len() as int,
    }
}

/// A line of `s` starts at `p`, just after a newline, and reads `---` once
/// trimmed: a line that closes the frontmatter.
pub open spec fn closes_at(s: Seq<char>, p: int) -> bool {
    &&& 0 < p <= s.len()
    &&& s[p - 1] == '\n'
    &&& trim(s.subrange(p, line_end(s, p))) == "---"@
}

/// The first position at or after `from` where a closing line starts.
pub open spec fn closing_from(s: Seq<char>, from: int) -> Option<int>
    decreases s.len() + 1 - from,
{
    if from < 1 || from > s.len() {
        None
    } else if closes_at(s, from) {
        Some(from)
    } else {
        closing_from(s, from + 1)
    }
}

/// The frontmatter text and the body after it, when `input` (after leading
/// whitespace) opens with `---` and a later whole line is `---`: the
/// frontmatter is the text before that line's newline, the body what follows
/// the line. A `---` that does not stand alone on its line (inside a TOML
/// string, say) does not close the frontmatter.
pub open spec fn frontmatter_split(input: Seq<char>) -> Option<(Seq<char>, Seq<char>)> {
    let t = trim_start(input);
    if !has_prefix(t, "---"@) {
        None
    } else {
        let after = strip_leading_newlines(t.skip("---"@.len() as int));
        match closing_from(after, 1) {
            Some(p) => Some((after.take(p - 1), after.skip(line_end(after, p)))),
            None => None,
        }
    }
}

/// The settings and body of `input`: the frontmatter's settings and the text
/// after it when the frontmatter parses, else the defaults and all of `input`.
pub open spec fn frontmatter(input: Seq<char>) -> (MetaV, Seq<char>) {
    match frontmatter_split(input) {
        Some((fm, rest)) => match toml_table(fm) {
            Some(es) => match meta_of_entries(es) {
                Some(m) => (m, rest),
                None => (default_meta(), input),
            },
            None => (default_meta(), input),
        },
        None => (default_meta(), input),
    }
}

fn split_frontmatter(input: &[char]) -> (r: Option<(Vec<char>, Vec<char>)>)
    ensures
        match r {
            Some((fm, rest)) => frontmatter_split(input@) == Some((fm@, rest@)),
            None => frontmatter_split(input@) is None,
        },
{
    let t = trim_start_chars(input);
    let dashes = chars_of("---");
    if !starts_with(t.as_slice(), dashes.as_slice()) {
        return None;
    }
    let mut i = dashes.len();
    while i < t.len() && (t[i] == '\n' || t[i] == '\r')
        invariant
            dashes@.len() <= i <= t@.len(),
            strip_leading_newlines(t@.skip(dashes@.len() as int)) == strip_leading_newlines(
                t@.skip(i as int),
            ),
        decreases t@.len() - i,
    {
        assert(t@.skip(i as int).drop_first() == t@.skip(i + 1));
        i = i + 1;
    }
    assert(strip_leading_newlines(t@.skip(i as int)) == t@.skip(i as int));
    let after = copy_range(t.as_slice(), i, t.len());
    assert(after@ == t@.skip(i as int));
    match closing_line(after.as_slice()) {
        Some((p, e)) => {
            let fm = copy_range(after.as_slice(), 0, p - 1);
            let rest = copy_range(after.as_slice(), e, after.len());
            assert(fm@ == after@.take(p - 1));
            assert(rest@ == after@.skip(e as int));
            Some((fm, rest))
        },
        None => None,
    }
}

/// Where the line of `s` that starts at `p` ends.
fn line_end_at(s: &[char], p: usize) -> (r: usize)
    requires
        p <= s@.len(),
    ensures
        r == line_end(s@, p as int),
        p <= r <= s@.len(),
{
    let nl = chars_of("\n");
    proof {
        lemma_find_from(s@, nl@, p as int);
    }
    match find_chars(s, nl.as_slice(), p) {
        Some(e) => e,
        None => s.len(),
    }
}

/// The first line of `s` that closes the frontmatter: where it starts and
/// where it ends.
fn closing_line(s: &[char]) -> (r: Option<(usize, usize)>)
    ensures
        match r {
            Some((p, e)) => closing_from(s@, 1) == Some(p as int) && e == line_end(s@, p as int)
                && 1 <= p <= e <= s@.len(),
            None => closing_from(s@, 1) is None,
        },
{
    let dashes = chars_of("---");
    let mut i: usize = 0;
    while i < s.len()
        invariant
            i <= s@.len(),
            dashes@ == "---"@,
            closing_from(s@, 1) == closing_from(s@, i + 1),
        decreases s@.len() - i,
    {
        if s[i] == '\n' {
            let p = i + 1;
            let e = line_end_at(s, p);
            let line = copy_range(s, p, e);
            let t = trim_chars(line.as_slice());
            if seq_eq(t.as_slice(), dashes.as_slice()) {
                return Some((p, e));
            }
        }
        i = i + 1;
    }
    None
}

/// Splits `input` into its settings and its body, as the frontmatter
/// describes them.
pub fn extract_frontmatter(input: &str) -> (r: (DeckMeta, String))
    ensures
        (r.0@, r.1@) == frontmatter(input@),
{
    let cs = chars_of(input);
    match split_frontmatter(cs.as_slice()) {
        Some((fm, rest)) => {
            let fm_s = string_of(fm.as_slice());
            match parse_toml_table(fm_s.as_str()) {
                Some(es) => match meta_from_entries(&es) {
                    Some(m) => (m, string_of(rest.as_slice())),
                    None => (DeckMeta::default(), string_of(cs.as_slice())),
                },
                None => (DeckMeta::default(), string_of(cs.as_slice())),
            }
        },
        None => (DeckMeta::default(), string_of(cs.as_slice())),
    }
}

/// The argument of a directive comment `<!-- prefix ... -->` on `line`
/// (trimmed), when the line is one.
pub open spec fn directive_arg(line: Seq<char>, prefix: Seq<char>) -> Option<Seq<char>> {
    let t = trim(line);
    if has_prefix(t, prefix) {
        let rest = t.skip(prefix.len() as int);
        if has_suffix(rest, "-->"@) {
            Some(trim(rest.take(rest.len() - "-->"@.len())))
        } else {
            None
        }
    } else {
        None
    }
}

fn directive(line: &[char], prefix: &[char]) -> (r: Option<Vec<char>>)
    ensures
        match r {
            Some(a) => directive_arg(line@, prefix@) == Some(a@),
            None => directive_arg(line@, prefix@) is None,
        },
{
    let t = trim_chars(line);
    if !starts_with(t.as_slice(), prefix) {
        return None;
    }
    let rest = copy_range(t.as_slice(), prefix.len(), t.len());
    let close = chars_of("-->");
    if !ends_with(rest.as_slice(), close.as_slice()) {
        return None;
    }
    let inner = copy_range(rest.as_slice(), 0, rest.len() - close.len());
    assert(inner@ == rest@.take(rest@.len() - close@.len()));
    Some(trim_chars(inner.as_slice()))
}

/// The prefix of a speaker-note comment.
pub open spec fn note_prefix() -> Seq<char> {
    "<!-- note:"@
}

/// The prefix of a background comment.
pub open spec fn background_prefix() -> Seq<char> {
    "<!-- background:"@
}

/// The text of `ls` without its note lines, and the notes in order.
pub open spec fn notes_run(ls: Seq<Seq<char>>) -> (Seq<char>, Seq<Seq<char>>)
    decreases ls.len(),
{
    if ls.len() == 0 {
        (seq![], seq![])
    } else {
        let prev = notes_run(ls.drop_last());
        match directive_arg(ls.last(), note_prefix()) {
            Some(n) => (prev.0, prev.1.push(n)),
            None => (join_line(prev.0, ls.last()), prev.1),
        }
    }
}

/// Removes `<!-- note: ... -->` lines from `raw`, returning the rest and the
/// notes in order.
pub fn extract_notes(raw: &str) -> (r: (String, Vec<String>))
    ensures
        (r.0@, strings_v(r.1@)) == notes_run(lines_of(raw@)),
{
    let cs = chars_of(raw);
    let ls = lines(cs.as_slice());
    let prefix = chars_of("<!-- note:");
    let mut cleaned: Vec<char> = Vec::new();
    let mut notes: Vec<String> = Vec::new();
    let mut i: usize = 0;
    assert(seqs_of(ls@).take(0) =~= seq![]);
    assert(strings_v(notes@) =~= seq![]);
    while i < ls.len()
        invariant
            i <= ls@.len(),
            prefix@ == note_prefix(),
            seqs_of(ls@) == lines_of(raw@),
            (cleaned@, strings_v(notes@)) == notes_run(seqs_of(ls@).take(i as int)),
        decreases ls@.len() - i,
    {
        assert(seqs_of(ls@).take(i + 1).drop_last() =~= seqs_of(ls@).take(i as int));
        assert(seqs_of(ls@).take(i + 1).last() == ls@[i as int]@);
        match directive(ls[i].as_slice(), prefix.as_slice()) {
            Some(n) => {
                let ghost before = strings_v(notes@);
                let s = string_of(n.as_slice());
                notes.push(s);
                assert(strings_v(notes@) =~= before.push(n@));
            },
            None => {
                append_line(&mut cleaned, ls[i].as_slice());
            },
        }
        i = i + 1;
    }
    assert(seqs_of(ls@).take(i as int) =~= seqs_of(ls@));
    (string_of(cleaned.as_slice()), notes)
}

/// The text of `ls` without its background lines, and the background the
/// last of them names (an unknown name clears it).
pub open spec fn background_run(ls: Seq<Seq<char>>) -> (Seq<char>, Option<BackgroundKind>)
    decreases ls.len(),
{
    if ls.len() == 0 {
        (seq![], None)
    } else {
        let prev = background_run(ls.drop_last());
        match directive_arg(ls.last(), background_prefix()) {
            Some(n) => (prev.0, background_named(n)),
            None => (join_line(prev.0, ls.last()), prev.1),
        }
    }
}

/// Removes `<!-- background: name -->` lines from `raw`, returning the rest
/// and the background named last.
pub fn extract_background(raw: &str) -> (r: (String, Option<BackgroundKind>))
    ensures
        (r.0@, r.1) == background_run(lines_of(raw@)),
{
    let cs = chars_of(raw);
    let ls = lines(cs.as_slice());
    let prefix = chars_of("<!-- background:");
    let mut cleaned: Vec<char> = Vec::new();
    let mut bg: Option<BackgroundKind> = None;
    let mut i: usize = 0;
    assert(seqs_of(ls@).take(0) =~= seq![]);
    while i < ls.len()
        invariant
            i <= ls@.len(),
            prefix@ == background_prefix(),
            seqs_of(ls@) == lines_of(raw@),
            (cleaned@, bg) == background_run(seqs_of(ls@).take(i as int)),
        decreases ls@.len() - i,
    {
        assert(seqs_of(ls@).take(i + 1).drop_last() =~= seqs_of(ls@).take(i as int));
        assert(seqs_of(ls@).take(i + 1).last() == ls@[i as int]@);
        match directive(ls[i].as_slice(), prefix.as_slice()) {
            Some(n) => {
                bg = BackgroundKind::from_chars(n.as_slice());
            },
            None => {
                append_line(&mut cleaned, ls[i].as_slice());
            },
        }
        i = i + 1;
    }
    assert(seqs_of(ls@).take(i as int) =~= seqs_of(ls@));
    (string_of(cleaned.as_slice()), bg)
}

/// The slides of `ls` so far and the lines of the slide being collected:
/// a line that is `---` (trimmed) ends a slide, which is kept trimmed when
/// not empty.
pub open spec fn slides_run(ls: Seq<Seq<char>>) -> (Seq<Seq<char>>, Seq<char>)
    decreases ls.len(),
{
    if ls.len() == 0 {
        (seq![], seq![])
    } else {
        let prev = slides_run(ls.drop_last());
        if trim(ls.last()) == "---"@ {
            let t = trim(prev.1);
            (if t.len() > 0 { prev.0.push(t) } else { prev.0 }, seq![])
        } else {
            (prev.0, join_line(prev.1, ls.last()))
        }
    }
}

/// The raw slides of a deck body: its `---`-separated parts, trimmed, empty
/// ones dropped.
pub open spec fn split_slides_spec(body: Seq<char>) -> Seq<Seq<char>> {
    let r = slides_run(lines_of(body));
    let t = trim(r.1);
    if t.len() > 0 {
        r.0.push(t)
    } else {
        r.0
    }
}

/// Splits a deck body into its raw slides at `---` lines.
pub fn split_slides(body: &str) -> (r: Vec<String>)
    ensures
        strings_v(r@) == split_slides_spec(body@),
{
    let cs = chars_of(body);
    let ls = lines(cs.as_slice());
    let sep = chars_of("---");
    let mut slides: Vec<String> = Vec::new();
    let mut current: Vec<char> = Vec::new();
    let mut i: usize = 0;
    assert(seqs_of(ls@).take(0) =~= seq![]);
    assert(strings_v(slides@) =~= seq![]);
    while i < ls.len()
        invariant
            i <= ls@.len(),
            sep@ == "---"@,
            seqs_of(ls@) == lines_of(body@),
            (strings_v(slides@), current@) == slides_run(seqs_of(ls@).take(i as int)),
        decreases ls@.len() - i,
    {
        assert(seqs_of(ls@).take(i + 1).drop_last() =~= seqs_of(ls@).take(i as int));
        assert(seqs_of(ls@).take(i + 1).last() == ls@[i as int]@);
        let t = trim_chars(ls[i].as_slice());
        if seq_eq(t.as_slice(), sep.as_slice()) {
            let tc = trim_chars(current.as_slice());
            if tc.len() > 0 {
                let ghost before = strings_v(slides@);
                slides.push(string_of(tc.as_slice()));
                assert(strings_v(slides@) =~= before.push(tc@));
            }
            current = Vec::new();
        } else {
            append_line(&mut current, ls[i].as_slice());
        }
        i = i + 1;
    }
    assert(seqs_of(ls@).take(i as int) =~= seqs_of(ls@));
    let tc = trim_chars(current.as_slice());
    if tc.len() > 0 {
        let ghost before = strings_v(slides@);
        slides.push(string_of(tc.as_slice()));
        assert(strings_v(slides@) =~= before.push(tc@));
    }
    slides
}

} // verus!

verus! {

/// The state of a scan through the lines after `::: columns`.
pub ghost struct ColumnScan {
    pub left: Seq<char>,
    pub right: Seq<char>,
    pub in_left: bool,
    pub in_right: bool,
    /// A closing `:::` outside both columns ended the scan.
    pub stopped: bool,
}

/// How one line moves the scan: `::: left` and `::: right` open a column,
/// `:::` closes the open one or, with none open, ends the scan; other lines
/// go to the open column.
pub open spec fn column_step(st: ColumnScan, line: Seq<char>) -> ColumnScan {
    if st.stopped {
        st
    } else {
        let t = trim(line);
        if t == "::: left"@ {
            ColumnScan { in_left: true, in_right: false, ..st }
        } else if t == "::: right"@ {
            ColumnScan { in_left: false, in_right: true, ..st }
        } else if t == ":::"@ {
            if st.in_left {
                ColumnScan { in_left: false, ..st }
            } else if st.in_right {
                ColumnScan { in_right: false, ..st }
            } else {
                ColumnScan { stopped: true, ..st }
            }
        } else if st.in_left {
            ColumnScan { left: join_line(st.left, line), ..st }
        } else if st.in_right {
            ColumnScan { right: join_line(st.right, line), ..st }
        } else {
            st
        }
    }
}

/// The scan over the lines `ls`.
pub open spec fn column_scan(ls: Seq<Seq<char>>) -> ColumnScan
    decreases ls.len(),
{
    if ls.len() == 0 {
        ColumnScan { left: seq![], right: seq![], in_left: false, in_right: false, stopped: false }
    } else {
        column_step(column_scan(ls.drop_last()), ls.last())
    }
}

/// The line that opens a column layout.
pub open spec fn columns_marker() -> Seq<char> {
    "::: columns"@
}

/// The index of the first line at or after `from` that is the column marker.
pub open spec fn columns_marker_from(ls: Seq<Seq<char>>, from: int) -> Option<int>
    decreases ls.len() - from,
{
    if from < 0 || from >= ls.len() {
        None
    } else if trim(ls[from]) == columns_marker() {
        Some(from)
    } else {
        columns_marker_from(ls, from + 1)
    }
}

/// The text before the column marker and the two columns' text, when `raw`
/// has a marker line and at least one non-empty column.
pub open spec fn columns_of(raw: Seq<char>) -> Option<(Seq<char>, Seq<char>, Seq<char>)> {
    let ls = lines_of(raw);
    match columns_marker_from(ls, 0) {
        None => None,
        Some(k) => {
            let st = column_scan(ls.skip(k + 1));
            if st.left.len() == 0 && st.right.len() == 0 {
                None
            } else {
                Some((join_newline(ls.take(k)), st.left, st.right))
            }
        },
    }
}

proof fn lemma_scan_stopped(ls: Seq<Seq<char>>, k: int)
    requires
        0 <= k <= ls.len(),
        column_scan(ls.take(k)).stopped,
    ensures
        column_scan(ls) == column_scan(ls.take(k)),
    decreases ls.len(),
{
    if k < ls.len() {
        assert(ls.drop_last().take(k) =~= ls.take(k));
        lemma_scan_stopped(ls.drop_last(), k);
    } else {
        assert(ls.take(k) =~= ls);
    }
}

/// Splits a `::: columns` block out of `raw`: the text before the marker,
/// the left column and the right column. `None` when there is no marker line
/// or both columns are empty.
pub fn extract_columns(raw: &str) -> (r: Option<(String, String, String)>)
    ensures
        match r {
            Some((b, l, rt)) => columns_of(raw@) == Some((b@, l@, rt@)),
            None => columns_of(raw@) is None,
        },
{
    let cs = chars_of(raw);
    let ls = lines(cs.as_slice());
    let ghost s = seqs_of(ls@);
    let marker = chars_of("::: columns");
    let open_left = chars_of("::: left");
    let open_right = chars_of("::: right");
    let close = chars_of(":::");
    let mut k: usize = 0;
    while k < ls.len() && !seq_eq(trim_chars(ls[k].as_slice()).as_slice(), marker.as_slice())
        invariant
            k <= ls@.len(),
            s == seqs_of(ls@),
            marker@ == columns_marker(),
            columns_marker_from(s, 0) == columns_marker_from(s, k as int),
        decreases ls@.len() - k,
    {
        assert(s[k as int] == ls@[k as int]@);
        k = k + 1;
    }
    if k == ls.len() {
        return None;
    }
    assert(s[k as int] == ls@[k as int]@);
    assert(columns_marker_from(s, 0) == Some(k as int));
    let before = join_lines(&ls, k);
    let ghost rest = s.skip(k + 1);
    let mut left: Vec<char> = Vec::new();
    let mut right: Vec<char> = Vec::new();
    let mut in_left = false;
    let mut in_right = false;
    let mut stopped = false;
    let mut i: usize = k + 1;
    assert(rest.take(0) =~= seq![]);
    while i < ls.len() && !stopped
        invariant
            k < i <= ls@.len(),
            s == seqs_of(ls@),
            rest == s.skip(k + 1),
            open_left@ == "::: left"@,
            open_right@ == "::: right"@,
            close@ == ":::"@,
            column_scan(rest.take(i - k - 1)) == (ColumnScan {
                left: left@,
                right: right@,
                in_left,
                in_right,
                stopped,
            }),
        decreases ls@.len() - i,
    {
        assert(rest.take(i - k).drop_last() =~= rest.take(i - k - 1));
        assert(rest.take(i - k).last() == ls@[i as int]@);
        let t = trim_chars(ls[i].as_slice());
        if seq_eq(t.as_slice(), open_left.as_slice()) {
            in_left = true;
            in_right = false;
        } else if seq_eq(t.as_slice(), open_right.as_slice()) {
            in_right = true;
            in_left = false;
        } else if seq_eq(t.as_slice(), close.as_slice()) {
            if in_left {
                in_left = false;
            } else if in_right {
                in_right = false;
            } else {
                stopped = true;
            }
        } else if in_left {
            append_line(&mut left, ls[i].as_slice());
        } else if in_right {
            append_line(&mut right, ls[i].as_slice());
        }
        i = i + 1;
    }
    proof {
        if stopped {
            lemma_scan_stopped(rest, i - k - 1);
        } else {
            assert(rest.take(i - k - 1) =~= rest);
        }
    }
    if left.len() == 0 && right.len() == 0 {
        None
    } else {
        Some((string_of(before.as_slice()), string_of(left.as_slice()), string_of(right.as_slice())))
    }
}

} // verus!

verus! {

/// How a slide arranges its content.
#[derive(Debug, Clone, Copy, PartialEq, Eq, Structural)]
pub enum Layout {
    Default,
    Center,
    Columns,
}

impl Default for Layout {
    fn default() -> (r: Self)
        ensures
            r == Layout::Default,
    {
        Layout::Default
    }
}

/// The two columns of a column layout.
#[derive(Debug)]
pub struct Columns {
    pub left: Vec<Block>,
    pub right: Vec<Block>,
}

/// The value of a [`Columns`].
pub ghost struct ColumnsV {
    pub left: Seq<BlockV>,
    pub right: Seq<BlockV>,
}

impl View for Columns {
    type V = ColumnsV;

    open spec fn view(&self) -> ColumnsV {
        ColumnsV { left: blocks_v(self.left@), right: blocks_v(self.right@) }
    }
}

/// One slide: its content, layout, speaker notes and background.
#[derive(Debug)]
pub struct Slide {
    pub blocks: Vec<Block>,
    pub layout: Layout,
    pub columns: Option<Columns>,
    pub notes: Vec<String>,
    pub background: Option<BackgroundKind>,
}

/// The value of a [`Slide`].
pub ghost struct SlideV {
    pub blocks: Seq<BlockV>,
    pub layout: Layout,
    pub columns: Option<ColumnsV>,
    pub notes: Seq<Seq<char>>,
    pub background: Option<BackgroundKind>,
}

impl View for Slide {
    type V = SlideV;

    open spec fn view(&self) -> SlideV {
        SlideV {
            blocks: blocks_v(self.blocks@),
            layout: self.layout,
            columns: match self.columns {
                Some(c) => Some(c@),
                None => None,
            },
            notes: strings_v(self.notes@),
            background: self.background,
        }
    }
}

/// The comment that centres a slide.
pub open spec fn center_marker() -> Seq<char> {
    "<!-- layout: center -->"@
}

/// The slide that the raw text `raw` describes: notes and background
/// directives are taken out first; a column block, when there is one with
/// content, gives a column layout (the text before it becomes the slide's
/// blocks); else the centre marker, wherever it stands, centres the slide and
/// is removed.
pub open spec fn slide_of(raw: Seq<char>) -> SlideV {
    let n = notes_run(lines_of(raw));
    let b = background_run(lines_of(n.0));
    let text = b.0;
    let cols = if contains_seq(text, columns_marker()) {
        columns_of(text)
    } else {
        None
    };
    match cols {
        Some((before, l, r)) => SlideV {
            blocks: if trim(before).len() == 0 {
                seq![]
            } else {
                md_blocks(trim(before))
            },
            layout: Layout::Columns,
            columns: Some(ColumnsV { left: md_blocks(l), right: md_blocks(r) }),
            notes: n.1,
            background: b.1,
        },
        None => SlideV {
            blocks: md_blocks(trim(replace_seq(text, center_marker(), seq![]))),
            layout: if contains_seq(text, center_marker()) {
                Layout::Center
            } else {
                Layout::Default
            },
            columns: None,
            notes: n.1,
            background: b.1,
        },
    }
}

/// Parses the raw text of one slide.
pub fn parse_slide(raw: &str) -> (r: Slide)
    ensures
        r@ == slide_of(raw@),
{
    let (cleaned, notes) = extract_notes(raw);
    let (cleaned, background) = extract_background(cleaned.as_str());
    let text = chars_of(cleaned.as_str());
    let marker = chars_of("::: columns");
    if contains_chars(text.as_slice(), marker.as_slice()) {
        if let Some((before, left_md, right_md)) = extract_columns(cleaned.as_str()) {
            let bt = trim_chars(chars_of(before.as_str()).as_slice());
            let blocks = if bt.len() == 0 {
                let none: Vec<Block> = Vec::new();
                assert(blocks_v(none@) =~= seq![]);
                none
            } else {
                parse_blocks(string_of(bt.as_slice()).as_str())
            };
            let left = parse_blocks(left_md.as_str());
            let right = parse_blocks(right_md.as_str());
            let r = Slide {
                blocks,
                layout: Layout::Columns,
                columns: Some(Columns { left, right }),
                notes,
                background,
            };
            return r;
        }
    }
    let center = chars_of("<!-- layout: center -->");
    proof {
        reveal_strlit("<!-- layout: center -->");
    }
    let is_center = contains_chars(text.as_slice(), center.as_slice());
    let empty: Vec<char> = Vec::new();
    let replaced = replace_chars(text.as_slice(), center.as_slice(), empty.as_slice());
    assert(empty@ =~= seq![]);
    let body = trim_chars(replaced.as_slice());
    let blocks = parse_blocks(string_of(body.as_slice()).as_str());
    Slide {
        blocks,
        layout: if is_center {
            Layout::Center
        } else {
            Layout::Default
        },
        columns: None,
        notes,
        background,
    }
}

} // verus!

verus! {

/// A parsed deck: its settings and its slides.
#[derive(Debug)]
pub struct Deck {
    pub meta: DeckMeta,
    pub slides: Vec<Slide>,
}

/// The value of a [`Deck`].
pub ghost struct DeckV {
    pub meta: MetaV,
    pub slides: Seq<SlideV>,
}

/// The values of a run of slides.
pub open spec fn slides_v(s: Seq<Slide>) -> Seq<SlideV> {
    s.map_values(|x: Slide| x@)
}

impl View for Deck {
    type V = DeckV;

    open spec fn view(&self) -> DeckV {
        DeckV { meta: self.meta@, slides: slides_v(self.slides@) }
    }
}

/// A slide is kept when it has blocks or columns.
pub open spec fn slide_kept(s: SlideV) -> bool {
    s.blocks.len() > 0 || s.columns is Some
}

/// The kept slides of the raw slides `raws`, in order.
pub open spec fn kept_slides(raws: Seq<Seq<char>>) -> Seq<SlideV>
    decreases raws.len(),
{
    if raws.len() == 0 {
        seq![]
    } else {
        let prev = kept_slides(raws.drop_last());
        let s = slide_of(raws.last());
        if slide_kept(s) {
            prev.push(s)
        } else {
            prev
        }
    }
}

/// `slides` with the deck-wide background given to the first slide when it
/// names none of its own.
pub open spec fn with_first_background(slides: Seq<SlideV>, bg: Option<BackgroundKind>) -> Seq<
    SlideV,
> {
    match bg {
        Some(b) => if slides.len() > 0 && slides[0].background is None {
            slides.update(0, SlideV { background: Some(b), ..slides[0] })
        } else {
            slides
        },
        None => slides,
    }
}

/// The deck that `input` describes.
pub open spec fn deck_of(input: Seq<char>) -> DeckV {
    let fm = frontmatter(input);
    DeckV {
        meta: fm.0,
        slides: with_first_background(
            kept_slides(split_slides_spec(fm.1)),
            fm.0.background,
        ),
    }
}

/// Parses a whole deck: frontmatter, then slides. Slides without content are
/// dropped, and the frontmatter's background goes to the first slide unless
/// it names its own.
pub fn parse_deck(input: &str) -> (r: Deck)
    ensures
        r@ == deck_of(input@),
{
    let (meta, body) = extract_frontmatter(input);
    let raw_slides = split_slides(body.as_str());
    let ghost raws = strings_v(raw_slides@);
    let mut slides: Vec<Slide> = Vec::new();
    let mut i: usize = 0;
    assert(raws.take(0) =~= seq![]);
    assert(slides_v(slides@) =~= seq![]);
    while i < raw_slides.len()
        invariant
            i <= raw_slides@.len(),
            raws == strings_v(raw_slides@),
            slides_v(slides@) == with_first_background(
                kept_slides(raws.take(i as int)),
                meta.background,
            ),
        decreases raw_slides@.len() - i,
    {
        assert(raws.take(i + 1).drop_last() =~= raws.take(i as int));
        assert(raws.take(i + 1).last() == raw_slides@[i as int]@);
        let ghost prev = kept_slides(raws.take(i as int));
        let mut s = parse_slide(raw_slides[i].as_str());
        if s.blocks.len() > 0 || s.columns.is_some() {
            let ghost before = slides_v(slides@);
            let ghost sv = s@;
            if slides.len() == 0 {
                match meta.background {
                    Some(b) => {
                        if s.background.is_none() {
                            s.background = Some(b);
                        }
                    },
                    None => {},
                }
            }
            slides.push(s);
            proof {
                assert(slides_v(slides@) =~= before.push(s@));
                if prev.len() == 0 {
                    assert(prev.push(sv) =~= seq![sv]);
                    assert(prev =~= seq![]);
                    assert(with_first_background(prev, meta.background) =~= seq![]);
                    assert(slides_v(slides@) =~= with_first_background(prev.push(sv), meta.background));
                } else {
                    assert(slides_v(slides@) =~= with_first_background(prev.push(sv), meta.background));
                }
            }
        }
        i = i + 1;
    }
    assert(raws.take(i as int) =~= raws);
    Deck { meta, slides }
}

} // verus!

verus! {

proof fn lemma_kept_slides_kept(raws: Seq<Seq<char>>)
    ensures
        forall|i: int| 0 <= i < kept_slides(raws).len() ==> slide_kept(#[trigger] kept_slides(raws)[i]),
    decreases raws.len(),
{
    if raws.len() > 0 {
        let prev = kept_slides(raws.drop_last());
        lemma_kept_slides_kept(raws.drop_last());
        let s = slide_of(raws.last());
        if slide_kept(s) {
            assert forall|i: int| 0 <= i < prev.push(s).len() implies slide_kept(
                #[trigger] prev.push(s)[i],
            ) by {
                if i < prev.len() {
                    assert(prev.push(s)[i] == prev[i]);
                }
            }
        }
    }
}

/// A parsed deck has no empty slide: each has blocks or columns.
pub proof fn lemma_deck_slides_have_content(input: Seq<char>)
    ensures
        forall|i: int|
            0 <= i < deck_of(input).slides.len() ==> slide_kept(#[trigger] deck_of(input).slides[i]),
{
    let fm = frontmatter(input);
    let ks = kept_slides(split_slides_spec(fm.1));
    lemma_kept_slides_kept(split_slides_spec(fm.1));
    assert forall|i: int| 0 <= i < deck_of(input).slides.len() implies slide_kept(
        #[trigger] deck_of(input).slides[i],
    ) by {
        assert(slide_kept(ks[i]));
    }
}

/// The frontmatter's background shows on the first slide unless that slide
/// names its own; every other slide keeps the background it names.
pub proof fn lemma_deck_background(input: Seq<char>)
    ensures
        ({
            let d = deck_of(input);
            let ks = kept_slides(split_slides_spec(frontmatter(input).1));
            &&& d.slides.len() == ks.len()
            &&& d.slides.len() > 0 ==> d.slides[0].background == (match ks[0].background {
                Some(b) => Some(b),
                None => d.meta.background,
            })
            &&& forall|i: int| 0 < i < d.slides.len() ==> #[trigger] d.slides[i] == ks[i]
        }),
{
}

/// The parses of the raw slides `raws` that have blocks or columns, in
/// order.
pub open spec fn slides_with_content(raws: Seq<Seq<char>>) -> Seq<SlideV> {
    raws.map_values(|r: Seq<char>| slide_of(r)).filter(
        |s: SlideV| s.blocks.len() > 0 || s.columns is Some,
    )
}

/// Slide filtering is complete and sound: the kept slides are exactly the
/// parses of the raw slides that have blocks or columns, in order. A slide
/// with columns and no other block is kept; a slide with neither is dropped.
pub proof fn lemma_kept_slides_exact(raws: Seq<Seq<char>>)
    ensures
        kept_slides(raws) == slides_with_content(raws),
    decreases raws.len(),
{
    reveal(Seq::filter);
    if raws.len() > 0 {
        lemma_kept_slides_exact(raws.drop_last());
        let m = raws.map_values(|r: Seq<char>| slide_of(r));
        let pred = |s: SlideV| s.blocks.len() > 0 || s.columns is Some;
        assert(m.drop_last() =~= raws.drop_last().map_values(|r: Seq<char>| slide_of(r)));
        assert(m.last() == slide_of(raws.last()));
        assert(slides_with_content(raws) == m.filter(pred));
        assert(m.filter(pred) == (if pred(m.last()) {
            m.drop_last().filter(pred).push(m.last())
        } else {
            m.drop_last().filter(pred)
        }));
        assert(slides_with_content(raws.drop_last()) == m.drop_last().filter(pred));
    } else {
        assert(raws.map_values(|r: Seq<char>| slide_of(r)) =~= Seq::<SlideV>::empty());
    }
}

/// A parsed deck holds every slide of the file that has blocks or columns,
/// in order, and no other: its slides are those parses, the first one only
/// taking the deck-wide background when it names none.
pub proof fn lemma_deck_slides_exact(input: Seq<char>)
    ensures
        ({
            let d = deck_of(input);
            let full = slides_with_content(split_slides_spec(frontmatter(input).1));
            &&& d.slides.len() == full.len()
            &&& forall|i: int| 0 < i < d.slides.len() ==> #[trigger] d.slides[i] == full[i]
            &&& d.slides.len() > 0 ==> SlideV { background: full[0].background, ..d.slides[0] }
                == full[0]
        }),
{
    lemma_kept_slides_exact(split_slides_spec(frontmatter(input).1));
}

} // verus!
