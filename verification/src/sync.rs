//! The presenter/follower channel: the name of the shared file, and the
//! `"<slide> <reveal>"` line written to it and read back.

use vstd::prelude::*;

use crate::text::{chars_of, copy_range, has_suffix, is_whitespace, is_ws, push_all, string_of};
use crate::util::{fnv1a, fnv1a_bytes};
use vstd::string::StringSliceAdditionalSpecFns;

verus! {

/// The decimal digit for `d` (below 10).
pub open spec fn digit_char(d: nat) -> char {
    (48 + d) as char
}

/// The decimal form of `n`, without leading zeros (`"0"` for zero).
pub open spec fn decimal(n: nat) -> Seq<char>
    decreases n,
{
    if n < 10 {
        seq![digit_char(n)]
    } else {
        decimal(n / 10).push(digit_char(n % 10))
    }
}

/// The lower-case hexadecimal digit for `d` (below 16).
pub open spec fn hex_char(d: nat) -> char {
    if d < 10 {
        (48 + d) as char
    } else {
        (87 + d) as char
    }
}

/// The last `k` hexadecimal digits of `n`, zero-padded.
pub open spec fn hex_digits(n: nat, k: nat) -> Seq<char>
    decreases k,
{
    if k == 0 {
        seq![]
    } else {
        hex_digits(n / 16, (k - 1) as nat).push(hex_char(n % 16))
    }
}

/// Appends the decimal form of `n` to `out`.
pub fn push_decimal(out: &mut Vec<char>, n: u64)
    ensures
        final(out)@ == old(out)@ + decimal(n as nat),
    decreases n,
{
    if n >= 10 {
        push_decimal(out, n / 10);
    }
    let d = (n % 10) as u8;
    let c = (48 + d) as char;
    assert(c == digit_char((n % 10) as nat));
    out.push(c);
}

/// Appends the last `k` hexadecimal digits of `n`, zero-padded, to `out`.
pub fn push_hex(out: &mut Vec<char>, n: u64, k: u32)
    ensures
        final(out)@ == old(out)@ + hex_digits(n as nat, k as nat),
    decreases k,
{
    if k > 0 {
        push_hex(out, n / 16, k - 1);
        let d = (n % 16) as u8;
        let c = if d < 10 {
            (48 + d) as char
        } else {
            (87 + d) as char
        };
        assert(c == hex_char((n % 16) as nat));
        out.push(c);
    }
}

} // verus!

verus! {

/// `c` is an ASCII decimal digit.
pub open spec fn is_digit(c: char) -> bool {
    '0' <= c && c <= '9'
}

/// The number written by the decimal digits `ds`.
pub open spec fn digits_value(ds: Seq<char>) -> nat
    decreases ds.len(),
{
    if ds.len() == 0 {
        0
    } else {
        digits_value(ds.drop_last()) * 10 + ((ds.last() as nat) - 48) as nat
    }
}

/// Every character of `ds` is a decimal digit.
pub open spec fn all_digits(ds: Seq<char>) -> bool {
    forall|i: int| 0 <= i < ds.len() ==> is_digit(#[trigger] ds[i])
}

/// `tok` without the `+` it may start with.
pub open spec fn unsigned_part(tok: Seq<char>) -> Seq<char> {
    if tok.len() > 0 && tok[0] == '+' {
        tok.drop_first()
    } else {
        tok
    }
}

/// What `str::parse::<usize>` accepts: an optional `+`, then at least one
/// decimal digit and nothing else, of a value that fits in a `usize`.
pub open spec fn usize_of(tok: Seq<char>) -> Option<nat> {
    let ds = unsigned_part(tok);
    if ds.len() > 0 && all_digits(ds) && digits_value(ds) <= usize::MAX {
        Some(digits_value(ds))
    } else {
        None
    }
}

proof fn lemma_digits_value_grows(ds: Seq<char>, k: int)
    requires
        0 <= k <= ds.len(),
        all_digits(ds),
    ensures
        digits_value(ds.take(k)) <= digits_value(ds),
    decreases ds.len(),
{
    if k < ds.len() {
        assert(ds.drop_last().take(k) =~= ds.take(k));
        lemma_digits_value_grows(ds.drop_last(), k);
        assert(all_digits(ds.drop_last()));
    } else {
        assert(ds.take(k) =~= ds);
    }
}

/// Parses a decimal `usize` as `str::parse::<usize>` does.
pub fn parse_usize(tok: &[char]) -> (r: Option<usize>)
    ensures
        match r {
            Some(v) => usize_of(tok@) == Some(v as nat),
            None => usize_of(tok@) is None,
        },
{
    let start: usize = if tok.len() > 0 && tok[0] == '+' {
        1
    } else {
        0
    };
    let ghost ds = tok@.skip(start as int);
    assert(ds =~= unsigned_part(tok@));
    if start == tok.len() {
        return None;
    }
    let mut i: usize = start;
    while i < tok.len()
        invariant
            start <= i <= tok@.len(),
            ds == tok@.skip(start as int),
            ds == unsigned_part(tok@),
            forall|j: int| 0 <= j < i - start ==> is_digit(#[trigger] ds[j]),
        decreases tok@.len() - i,
    {
        if !('0' <= tok[i] && tok[i] <= '9') {
            assert(!is_digit(ds[i - start]));
            assert(!all_digits(ds));
            return None;
        }
        i = i + 1;
    }
    assert(all_digits(ds));
    let mut v: usize = 0;
    let mut i: usize = start;
    assert(ds.take(0) =~= seq![]);
    while i < tok.len()
        invariant
            start <= i <= tok@.len(),
            ds == tok@.skip(start as int),
            ds == unsigned_part(tok@),
            all_digits(ds),
            v as nat == digits_value(ds.take(i - start)),
        decreases tok@.len() - i,
    {
        assert(ds.take(i - start + 1).drop_last() =~= ds.take(i - start));
        assert(ds[i - start] == tok@[i as int]);
        let d = ((tok[i] as u32) - 48) as usize;
        match v.checked_mul(10) {
            Some(m) => match m.checked_add(d) {
                Some(n) => {
                    v = n;
                },
                None => {
                    proof {
                        lemma_digits_value_grows(ds, i - start + 1);
                    }
                    return None;
                },
            },
            None => {
                proof {
                    lemma_digits_value_grows(ds, i - start + 1);
                }
                return None;
            },
        }
        i = i + 1;
    }
    assert(ds.take(i - start) =~= ds);
    Some(v)
}

/// The whitespace-separated words of `s` so far, and the word being read.
pub open spec fn words_run(s: Seq<char>) -> (Seq<Seq<char>>, Seq<char>)
    decreases s.len(),
{
    if s.len() == 0 {
        (seq![], seq![])
    } else {
        let p = words_run(s.drop_last());
        if is_ws(s.last()) {
            (if p.1.len() > 0 { p.0.push(p.1) } else { p.0 }, seq![])
        } else {
            (p.0, p.1.push(s.last()))
        }
    }
}

/// The whitespace-separated words of `s`, as `str::split_whitespace` gives
/// them.
pub open spec fn words(s: Seq<char>) -> Seq<Seq<char>> {
    let r = words_run(s);
    if r.1.len() > 0 {
        r.0.push(r.1)
    } else {
        r.0
    }
}

/// The whitespace-separated words of `s`.
pub fn split_words(s: &[char]) -> (r: Vec<Vec<char>>)
    ensures
        crate::text::seqs_of(r@) == words(s@),
{
    let mut out: Vec<Vec<char>> = Vec::new();
    let mut cur: Vec<char> = Vec::new();
    let mut i: usize = 0;
    assert(s@.take(0) =~= seq![]);
    assert(crate::text::seqs_of(out@) =~= seq![]);
    while i < s.len()
        invariant
            i <= s@.len(),
            (crate::text::seqs_of(out@), cur@) == words_run(s@.take(i as int)),
        decreases s@.len() - i,
    {
        assert(s@.take(i + 1).drop_last() =~= s@.take(i as int));
        assert(s@.take(i + 1).last() == s@[i as int]);
        if is_whitespace(s[i]) {
            if cur.len() > 0 {
                let ghost before = crate::text::seqs_of(out@);
                let w = cur;
                out.push(w);
                assert(crate::text::seqs_of(out@) =~= before.push(w@));
            }
            cur = Vec::new();
        } else {
            cur.push(s[i]);
        }
        i = i + 1;
    }
    assert(s@.take(i as int) =~= s@);
    if cur.len() > 0 {
        let ghost before = crate::text::seqs_of(out@);
        let w = cur;
        out.push(w);
        assert(crate::text::seqs_of(out@) =~= before.push(w@));
    }
    out
}

/// The slide and reveal count that the sync file's text `content` holds:
/// its first two words, each a `usize`.
pub open spec fn sync_position(content: Seq<char>) -> Option<(nat, nat)> {
    let ws = words(content);
    if ws.len() < 2 {
        None
    } else {
        match (usize_of(ws[0]), usize_of(ws[1])) {
            (Some(a), Some(b)) => Some((a, b)),
            _ => None,
        }
    }
}

/// Reads the slide and reveal count from the sync file's text.
pub fn parse_sync_payload(content: &str) -> (r: Option<(usize, usize)>)
    ensures
        match r {
            Some((a, b)) => sync_position(content@) == Some((a as nat, b as nat)),
            None => sync_position(content@) is None,
        },
{
    let cs = chars_of(content);
    let ws = split_words(cs.as_slice());
    if ws.len() < 2 {
        return None;
    }
    assert(crate::text::seqs_of(ws@)[0] == ws@[0]@);
    assert(crate::text::seqs_of(ws@)[1] == ws@[1]@);
    let a = parse_usize(ws[0].as_slice());
    let b = parse_usize(ws[1].as_slice());
    match (a, b) {
        (Some(a), Some(b)) => Some((a, b)),
        _ => None,
    }
}

/// The line the presenter writes: `"<slide> <reveal>\n"`.
pub open spec fn sync_line(slide: nat, reveal: nat) -> Seq<char> {
    decimal(slide) + seq![' '] + decimal(reveal) + seq!['\n']
}

/// The text written to the sync file for a position.
pub fn sync_payload(slide: usize, reveal: usize) -> (r: String)
    ensures
        r@ == sync_line(slide as nat, reveal as nat),
{
    let mut out: Vec<char> = Vec::new();
    push_decimal(&mut out, slide as u64);
    out.push(' ');
    push_decimal(&mut out, reveal as u64);
    out.push('\n');
    assert(out@ =~= sync_line(slide as nat, reveal as nat));
    string_of(out.as_slice())
}

} // verus!

verus! {

proof fn lemma_decimal(n: nat)
    ensures
        decimal(n).len() > 0,
        all_digits(decimal(n)),
        digits_value(decimal(n)) == n,
        decimal(n)[0] != '+',
        forall|i: int| 0 <= i < decimal(n).len() ==> !is_ws(#[trigger] decimal(n)[i]),
    decreases n,
{
    assert(digit_char(n % 10) as nat == 48 + n % 10);
    if n >= 10 {
        lemma_decimal(n / 10);
        assert((n / 10) * 10 + n % 10 == n);
        assert(decimal(n).drop_last() =~= decimal(n / 10));
        assert(decimal(n).last() == digit_char(n % 10));
        assert(digits_value(decimal(n)) == digits_value(decimal(n / 10)) * 10 + n % 10);
        assert forall|i: int| 0 <= i < decimal(n).len() implies is_digit(#[trigger] decimal(n)[i]) by {
            if i < decimal(n / 10).len() {
                assert(decimal(n)[i] == decimal(n / 10)[i]);
            }
        }
    } else {
        assert(decimal(n).drop_last() =~= Seq::<char>::empty());
        assert(digits_value(decimal(n).drop_last()) == 0);
    }
}

proof fn lemma_words_run_word(a: Seq<char>, w: Seq<char>)
    requires
        forall|i: int| 0 <= i < w.len() ==> !is_ws(#[trigger] w[i]),
    ensures
        words_run(a + w) == (words_run(a).0, words_run(a).1 + w),
    decreases w.len(),
{
    if w.len() == 0 {
        assert(a + w =~= a);
        assert(words_run(a).1 + w =~= words_run(a).1);
    } else {
        assert((a + w).drop_last() =~= a + w.drop_last());
        assert((a + w).last() == w.last());
        lemma_words_run_word(a, w.drop_last());
        assert((words_run(a).1 + w.drop_last()).push(w.last()) =~= words_run(a).1 + w);
    }
}

/// What the presenter writes for a position, a follower reads back as that
/// same position.
pub proof fn lemma_sync_roundtrip(slide: usize, reveal: usize)
    ensures
        sync_position(sync_line(slide as nat, reveal as nat)) == Some((slide as nat, reveal as nat)),
{
    let s = decimal(slide as nat);
    let r = decimal(reveal as nat);
    lemma_decimal(slide as nat);
    lemma_decimal(reveal as nat);
    let e: Seq<char> = seq![];
    assert(words_run(e) == (Seq::<Seq<char>>::empty(), e));
    lemma_words_run_word(e, s);
    assert(e + s =~= s);
    let a1 = s.push(' ');
    assert(a1.drop_last() =~= s);
    assert(words_run(a1) == (seq![s], e));
    lemma_words_run_word(a1, r);
    assert(e + r =~= r);
    let a2 = (a1 + r).push('\n');
    assert(a2.drop_last() =~= a1 + r);
    assert(words_run(a2) == (seq![s, r], e));
    assert(sync_line(slide as nat, reveal as nat) =~= a2);
    assert(words(a2) == seq![s, r]);
    assert(unsigned_part(s) == s);
    assert(unsigned_part(r) == r);
}

/// `name` under the directory `dir`, as `Path::join` puts a relative name
/// under a directory.
pub open spec fn join_path(dir: Seq<char>, name: Seq<char>) -> Seq<char> {
    if dir.len() == 0 || dir.last() == '/' {
        dir + name
    } else {
        dir + seq!['/'] + name
    }
}

/// The file name shared by every instance presenting the file whose
/// canonical path has the bytes `path`: `deck-<hash>.sync`, with the FNV-1a
/// hash in 16 lower-case hexadecimal digits.
pub open spec fn sync_file_name(path: Seq<u8>) -> Seq<char> {
    "deck-"@ + hex_digits(fnv1a_bytes(path) as nat, 16) + ".sync"@
}

/// Tiny file-based sync between presenter and follower instances.
/// The presenter writes `slide_index reveal_count` to a file the follower
/// polls; this names that file.
pub struct SyncFile {
    path: String,
}

impl View for SyncFile {
    type V = Seq<char>;

    closed spec fn view(&self) -> Seq<char> {
        self.path@
    }
}

impl SyncFile {
    #[verifier::type_invariant]
    spec fn well_formed(self) -> bool {
        has_suffix(self.path@, ".sync"@)
    }

    /// The sync file, in the directory `dir`, for the presentation whose
    /// canonical path is `canonical`.
    pub fn for_file(dir: &str, canonical: &str) -> (r: SyncFile)
        ensures
            r@ == join_path(dir@, sync_file_name(canonical.spec_bytes())),
    {
        let hash = fnv1a(canonical);
        let mut name: Vec<char> = chars_of("deck-");
        push_hex(&mut name, hash, 16);
        push_all(&mut name, chars_of(".sync").as_slice());
        proof {
            reveal_strlit("deck-");
            reveal_strlit(".sync");
        }
        let mut path = chars_of(dir);
        if path.len() > 0 && path[path.len() - 1] != '/' {
            path.push('/');
        }
        push_all(&mut path, name.as_slice());
        assert(path@ =~= join_path(dir@, sync_file_name(canonical.spec_bytes())));
        assert(path@.skip(path@.len() - 5) =~= ".sync"@);
        SyncFile { path: string_of(path.as_slice()) }
    }

    /// The path of the sync file.
    pub fn path(&self) -> (r: &str)
        ensures
            r@ == self@,
    {
        self.path.as_str()
    }

    /// The temporary file a write goes through before it is renamed into
    /// place: the sync path with its `.sync` extension replaced by
    /// `.tmp.<pid>`.
    pub fn tmp_path(&self, pid: u32) -> (r: String)
        ensures
            r@ == self@.take(self@.len() - 5) + ".tmp."@ + decimal(pid as nat),
    {
        proof {
            use_type_invariant(self);
            reveal_strlit(".sync");
            reveal_strlit(".tmp.");
        }
        let cs = chars_of(self.path.as_str());
        let mut out = copy_range(cs.as_slice(), 0, cs.len() - 5);
        push_all(&mut out, chars_of(".tmp.").as_slice());
        push_decimal(&mut out, pid as u64);
        string_of(out.as_slice())
    }
}

} // verus!
