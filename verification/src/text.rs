//! Character-level text helpers: whitespace trimming, line splitting and
//! substring search, each stated over `Seq<char>`.

use vstd::prelude::*;

verus! {

/// Unicode `White_Space`, the property behind `char::is_whitespace`.
pub open spec fn is_ws(c: char) -> bool {
    ||| ('\u{9}' <= c && c <= '\u{d}')
    ||| c == ' '
    ||| c == '\u{85}'
    ||| c == '\u{a0}'
    ||| c == '\u{1680}'
    ||| ('\u{2000}' <= c && c <= '\u{200a}')
    ||| c == '\u{2028}'
    ||| c == '\u{2029}'
    ||| c == '\u{202f}'
    ||| c == '\u{205f}'
    ||| c == '\u{3000}'
}

/// `char::is_whitespace`.
pub fn is_whitespace(c: char) -> (r: bool)
    ensures
        r == is_ws(c),
{
    ('\u{9}' <= c && c <= '\u{d}') || c == ' ' || c == '\u{85}' || c == '\u{a0}' || c == '\u{1680}'
        || ('\u{2000}' <= c && c <= '\u{200a}') || c == '\u{2028}' || c == '\u{2029}' || c
        == '\u{202f}' || c == '\u{205f}' || c == '\u{3000}'
}

/// `s` without its leading whitespace.
pub open spec fn trim_start(s: Seq<char>) -> Seq<char>
    decreases s.len(),
{
    if s.len() > 0 && is_ws(s[0]) {
        trim_start(s.drop_first())
    } else {
        s
    }
}

/// `s` without its trailing whitespace.
pub open spec fn trim_end(s: Seq<char>) -> Seq<char>
    decreases s.len(),
{
    if s.len() > 0 && is_ws(s.last()) {
        trim_end(s.drop_last())
    } else {
        s
    }
}

/// `s` without leading and trailing whitespace, as `str::trim`.
pub open spec fn trim(s: Seq<char>) -> Seq<char> {
    trim_end(trim_start(s))
}

/// Number of leading characters of `s` that satisfy nothing but whitespace.
pub open spec fn leading_ws(s: Seq<char>) -> nat
    decreases s.len(),
{
    if s.len() > 0 && is_ws(s[0]) {
        1 + leading_ws(s.drop_first())
    } else {
        0
    }
}

proof fn lemma_trim_start_skip(s: Seq<char>)
    ensures
        leading_ws(s) <= s.len(),
        trim_start(s) == s.skip(leading_ws(s) as int),
        forall|i: int| 0 <= i < leading_ws(s) ==> is_ws(#[trigger] s[i]),
        leading_ws(s) < s.len() ==> !is_ws(s[leading_ws(s) as int]),
    decreases s.len(),
{
    if s.len() > 0 && is_ws(s[0]) {
        lemma_trim_start_skip(s.drop_first());
        assert(s.drop_first().skip(leading_ws(s.drop_first()) as int) == s.skip(
            leading_ws(s) as int,
        ));
        assert forall|i: int| 0 <= i < leading_ws(s) implies is_ws(#[trigger] s[i]) by {
            if i > 0 {
                assert(s[i] == s.drop_first()[i - 1]);
            }
        }
    } else {
        assert(s.skip(0) == s);
    }
}

/// Number of trailing whitespace characters of `s`.
pub open spec fn trailing_ws(s: Seq<char>) -> nat
    decreases s.len(),
{
    if s.len() > 0 && is_ws(s.last()) {
        1 + trailing_ws(s.drop_last())
    } else {
        0
    }
}

proof fn lemma_trim_end_take(s: Seq<char>)
    ensures
        trailing_ws(s) <= s.len(),
        trim_end(s) == s.take(s.len() - trailing_ws(s)),
        forall|i: int| s.len() - trailing_ws(s) <= i < s.len() ==> is_ws(#[trigger] s[i]),
        trailing_ws(s) < s.len() ==> !is_ws(s[s.len() - trailing_ws(s) - 1]),
    decreases s.len(),
{
    if s.len() > 0 && is_ws(s.last()) {
        lemma_trim_end_take(s.drop_last());
        assert(s.drop_last().take(s.drop_last().len() - trailing_ws(s.drop_last())) == s.take(
            s.len() - trailing_ws(s),
        ));
        assert forall|i: int| s.len() - trailing_ws(s) <= i < s.len() implies is_ws(
            #[trigger] s[i],
        ) by {
            if i < s.len() - 1 {
                assert(s[i] == s.drop_last()[i]);
            }
        }
    } else {
        assert(s.take(s.len() as int) == s);
    }
}

/// Leading whitespace removed, as `str::trim_start`.
pub fn trim_start_chars(s: &[char]) -> (r: Vec<char>)
    ensures
        r@ == trim_start(s@),
{
    proof {
        lemma_trim_start_skip(s@);
    }
    let mut i: usize = 0;
    while i < s.len() && is_whitespace(s[i])
        invariant
            i <= s@.len(),
            i <= leading_ws(s@),
            leading_ws(s@) <= s@.len(),
            forall|k: int| 0 <= k < leading_ws(s@) ==> is_ws(#[trigger] s@[k]),
            leading_ws(s@) < s@.len() ==> !is_ws(s@[leading_ws(s@) as int]),
        decreases s@.len() - i,
    {
        i = i + 1;
    }
    copy_range(s, i, s.len())
}

/// Trailing whitespace removed, as `str::trim_end`.
pub fn trim_end_chars(s: &[char]) -> (r: Vec<char>)
    ensures
        r@ == trim_end(s@),
{
    proof {
        lemma_trim_end_take(s@);
    }
    let mut j: usize = s.len();
    while j > 0 && is_whitespace(s[j - 1])
        invariant
            j <= s@.len(),
            s@.len() - trailing_ws(s@) <= j,
            trailing_ws(s@) <= s@.len(),
            forall|k: int| s@.len() - trailing_ws(s@) <= k < s@.len() ==> is_ws(#[trigger] s@[k]),
            trailing_ws(s@) < s@.len() ==> !is_ws(s@[s@.len() - trailing_ws(s@) - 1]),
        decreases j,
    {
        j = j - 1;
    }
    copy_range(s, 0, j)
}

/// Whitespace removed at both ends, as `str::trim`.
pub fn trim_chars(s: &[char]) -> (r: Vec<char>)
    ensures
        r@ == trim(s@),
{
    let a = trim_start_chars(s);
    trim_end_chars(a.as_slice())
}

/// A copy of `s[from..to]`.
pub fn copy_range(s: &[char], from: usize, to: usize) -> (r: Vec<char>)
    requires
        from <= to <= s@.len(),
    ensures
        r@ == s@.subrange(from as int, to as int),
{
    let mut r: Vec<char> = Vec::new();
    let mut i = from;
    while i < to
        invariant
            from <= i <= to <= s@.len(),
            r@ == s@.subrange(from as int, i as int),
        decreases to - i,
    {
        r.push(s[i]);
        i = i + 1;
    }
    r
}

/// Appends `b` to `a`.
pub fn push_all(a: &mut Vec<char>, b: &[char])
    ensures
        final(a)@ == old(a)@ + b@,
{
    let mut i: usize = 0;
    while i < b.len()
        invariant
            i <= b@.len(),
            a@ == old(a)@ + b@.take(i as int),
        decreases b@.len() - i,
    {
        a.push(b[i]);
        i = i + 1;
    }
    assert(b@.take(b@.len() as int) == b@);
}

/// Index of the first `'\n'` in `s`, or `s.len()` when there is none.
pub open spec fn first_newline(s: Seq<char>) -> nat
    decreases s.len(),
{
    if s.len() == 0 {
        0
    } else if s[0] == '\n' {
        0
    } else {
        1 + first_newline(s.drop_first())
    }
}

/// A line without the `'\r'` that ended it.
pub open spec fn strip_cr(l: Seq<char>) -> Seq<char> {
    if l.len() > 0 && l.last() == '\r' {
        l.drop_last()
    } else {
        l
    }
}

/// The lines of `s`, as `str::lines` yields them: split at `'\n'`, a `'\r'`
/// before the `'\n'` dropped, and no empty line after a final `'\n'`.
pub open spec fn lines_of(s: Seq<char>) -> Seq<Seq<char>>
    decreases s.len(),
{
    if s.len() == 0 {
        seq![]
    } else {
        let n = first_newline(s);
        if n < s.len() {
            seq![strip_cr(s.take(n as int))] + lines_of(s.skip(n + 1 as int))
        } else {
            seq![s]
        }
    }
}

proof fn lemma_first_newline(s: Seq<char>)
    ensures
        first_newline(s) <= s.len(),
        forall|i: int| 0 <= i < first_newline(s) ==> #[trigger] s[i] != '\n',
        first_newline(s) < s.len() ==> s[first_newline(s) as int] == '\n',
    decreases s.len(),
{
    if s.len() > 0 && s[0] != '\n' {
        lemma_first_newline(s.drop_first());
        assert forall|i: int| 0 <= i < first_newline(s) implies #[trigger] s[i] != '\n' by {
            if i > 0 {
                assert(s[i] == s.drop_first()[i - 1]);
            }
        }
    }
}

/// The character sequences of a run of strings.
pub open spec fn strings_v(v: Seq<String>) -> Seq<Seq<char>> {
    v.map_values(|s: String| s@)
}

/// The character sequences held by a vector of character vectors.
pub open spec fn seqs_of(v: Seq<Vec<char>>) -> Seq<Seq<char>> {
    v.map_values(|x: Vec<char>| x@)
}

/// Splits `s` into its lines, as `str::lines`.
pub fn lines(s: &[char]) -> (r: Vec<Vec<char>>)
    ensures
        seqs_of(r@) == lines_of(s@),
{
    let mut r: Vec<Vec<char>> = Vec::new();
    let mut pos: usize = 0;
    assert(s@.skip(0) == s@);
    assert(seqs_of(r@) + lines_of(s@) =~= lines_of(s@));
    while pos < s.len()
        invariant
            pos <= s@.len(),
            seqs_of(r@) + lines_of(s@.skip(pos as int)) == lines_of(s@),
        decreases s@.len() - pos,
    {
        let ghost rest = s@.skip(pos as int);
        proof {
            lemma_first_newline(rest);
        }
        let mut j = pos;
        while j < s.len() && s[j] != '\n'
            invariant
                pos <= j <= s@.len(),
                rest == s@.skip(pos as int),
                j - pos <= first_newline(rest),
                first_newline(rest) <= rest.len(),
                forall|i: int| 0 <= i < first_newline(rest) ==> #[trigger] rest[i] != '\n',
                first_newline(rest) < rest.len() ==> rest[first_newline(rest) as int] == '\n',
            decreases s@.len() - j,
        {
            assert(rest[j - pos] == s@[j as int]);
            j = j + 1;
        }
        assert(j - pos == first_newline(rest)) by {
            if j < s.len() {
                assert(rest[j - pos] == s@[j as int]);
            }
        }
        let mut line = copy_range(s, pos, j);
        assert(line@ == rest.take(j - pos));
        let ghost old_r = seqs_of(r@);
        if j < s.len() {
            if line.len() > 0 && line[line.len() - 1] == '\r' {
                line.pop();
            }
            assert(line@ == strip_cr(rest.take(j - pos)));
            r.push(line);
            assert(rest.skip(j - pos + 1) == s@.skip(j + 1));
            assert(seqs_of(r@) =~= old_r.push(line@));
            assert(lines_of(rest) == seq![line@] + lines_of(s@.skip(j + 1)));
            assert(seqs_of(r@) + lines_of(s@.skip(j + 1)) == old_r + lines_of(rest));
            pos = j + 1;
        } else {
            assert(rest.take(j - pos) == rest);
            r.push(line);
            assert(seqs_of(r@) =~= old_r.push(line@));
            assert(lines_of(rest) == seq![rest]);
            assert(s@.skip(j as int).len() == 0);
            assert(lines_of(s@.skip(j as int)) == Seq::<Seq<char>>::empty());
            assert(seqs_of(r@) + lines_of(s@.skip(j as int)) == old_r + lines_of(rest));
            pos = j;
        }
    }
    assert(lines_of(s@.skip(pos as int)) == Seq::<Seq<char>>::empty());
    assert(seqs_of(r@) + Seq::<Seq<char>>::empty() =~= seqs_of(r@));
    r
}

} // verus!

verus! {

/// The characters of `s`.
pub fn chars_of(s: &str) -> (r: Vec<char>)
    ensures
        r@ == s@,
{
    let mut r: Vec<char> = Vec::new();
    for c in it: s.chars()
        invariant
            r@ == it.seq().take(it.index() as int),
            it.seq() == s@,
    {
        r.push(c);
    }
    r
}

} // verus!

verus! {

/// The string made of the characters `cs`, as `String::from_iter` builds it.
#[verifier::external_body]
pub(crate) fn string_of(cs: &[char]) -> (r: String)
    ensures
        r@ == cs@,
{
    cs.iter().collect()
}

/// `p` is a prefix of `s`.
pub open spec fn has_prefix(s: Seq<char>, p: Seq<char>) -> bool {
    p.len() <= s.len() && s.take(p.len() as int) == p
}

/// `p` is a suffix of `s`.
pub open spec fn has_suffix(s: Seq<char>, p: Seq<char>) -> bool {
    p.len() <= s.len() && s.skip(s.len() - p.len()) == p
}

/// `p` occurs in `s` at position `i`.
pub open spec fn occurs_at(s: Seq<char>, p: Seq<char>, i: int) -> bool {
    0 <= i && i + p.len() <= s.len() && s.subrange(i, i + p.len()) == p
}

/// `p` occurs somewhere in `s`, as `str::contains`.
pub open spec fn contains_seq(s: Seq<char>, p: Seq<char>) -> bool {
    exists|i: int| occurs_at(s, p, i)
}

/// Position of the first occurrence of `p` in `s` at or after `from`, as
/// `str::find` counts it from `from`.
pub open spec fn find_from(s: Seq<char>, p: Seq<char>, from: int) -> Option<int>
    decreases s.len() + 1 - from,
{
    if from < 0 || from + p.len() > s.len() {
        None
    } else if occurs_at(s, p, from) {
        Some(from)
    } else {
        find_from(s, p, from + 1)
    }
}

pub proof fn lemma_find_from(s: Seq<char>, p: Seq<char>, from: int)
    requires
        0 <= from,
    ensures
        find_from(s, p, from) matches Some(i) ==> from <= i && occurs_at(s, p, i) && forall|
            k: int,
        |
            from <= k < i ==> !occurs_at(s, p, k),
        find_from(s, p, from) is None ==> forall|k: int| from <= k ==> !occurs_at(s, p, k),
    decreases s.len() + 1 - from,
{
    if from + p.len() > s.len() {
    } else if occurs_at(s, p, from) {
    } else {
        lemma_find_from(s, p, from + 1);
    }
}

/// `p` occurs at `s[i..]`.
pub fn matches_at(s: &[char], p: &[char], i: usize) -> (r: bool)
    ensures
        r == occurs_at(s@, p@, i as int),
{
    if i > s.len() || p.len() > s.len() - i {
        return false;
    }
    let n = s.len();
    let mut k: usize = 0;
    while k < p.len()
        invariant
            n == s@.len(),
            i + p@.len() <= s@.len(),
            k <= p@.len(),
            forall|j: int| 0 <= j < k ==> s@[i + j] == p@[j],
        decreases p@.len() - k,
    {
        if s[i + k] != p[k] {
            assert(s@.subrange(i as int, i + p@.len())[k as int] != p@[k as int]);
            return false;
        }
        k = k + 1;
    }
    assert(s@.subrange(i as int, i + p@.len()) =~= p@);
    true
}

/// First position at or after `from` where `p` occurs in `s`, as `str::find`.
pub fn find_chars(s: &[char], p: &[char], from: usize) -> (r: Option<usize>)
    ensures
        r matches Some(i) ==> find_from(s@, p@, from as int) == Some(i as int),
        r is None ==> find_from(s@, p@, from as int) is None,
{
    let n = s.len();
    let mut i = from;
    while i <= s.len() && p.len() <= s.len() - i
        invariant
            n == s@.len(),
            from <= i,
            find_from(s@, p@, from as int) == find_from(s@, p@, i as int),
        decreases s@.len() + 1 - i,
    {
        if matches_at(s, p, i) {
            return Some(i);
        }
        if i == s.len() {
            proof {
                if p@.len() == 0 {
                    assert(s@.subrange(i as int, i as int) =~= p@);
                }
            }
            return None;
        }
        i = i + 1;
    }
    None
}

/// `s` starts with `p`, as `str::starts_with`.
pub fn starts_with(s: &[char], p: &[char]) -> (r: bool)
    ensures
        r == has_prefix(s@, p@),
{
    let r = matches_at(s, p, 0);
    proof {
        if p@.len() <= s@.len() {
            assert(s@.subrange(0, p@.len() as int) == s@.take(p@.len() as int));
        }
    }
    r
}

/// `s` ends with `p`, as `str::ends_with`.
pub fn ends_with(s: &[char], p: &[char]) -> (r: bool)
    ensures
        r == has_suffix(s@, p@),
{
    if p.len() > s.len() {
        return false;
    }
    let r = matches_at(s, p, s.len() - p.len());
    proof {
        assert(s@.subrange(s@.len() - p@.len(), s@.len() as int) == s@.skip(
            s@.len() - p@.len(),
        ));
    }
    r
}

/// `p` occurs in `s`, as `str::contains`.
pub fn contains_chars(s: &[char], p: &[char]) -> (r: bool)
    ensures
        r == contains_seq(s@, p@),
{
    let f = find_chars(s, p, 0);
    proof {
        lemma_find_from(s@, p@, 0);
    }
    f.is_some()
}

/// `s` with every non-overlapping occurrence of `from` replaced by `to`,
/// scanning left to right, as `str::replace`.
pub open spec fn replace_seq(s: Seq<char>, from: Seq<char>, to: Seq<char>) -> Seq<char>
    decreases s.len(),
{
    if from.len() == 0 {
        s
    } else {
        match find_from(s, from, 0) {
            None => s,
            Some(i) => if 0 <= i && i + from.len() <= s.len() {
                s.take(i) + to + replace_seq(s.skip(i + from.len()), from, to)
            } else {
                s
            },
        }
    }
}

pub proof fn lemma_find_shift(s: Seq<char>, p: Seq<char>, base: int, from: int)
    requires
        0 <= base <= from,
        base <= s.len(),
    ensures
        find_from(s, p, from) == (match find_from(s.skip(base), p, from - base) {
            Some(i) => Some(i + base),
            None => None,
        }),
    decreases s.len() + 1 - from,
{
    let t = s.skip(base);
    if from + p.len() > s.len() {
    } else {
        assert(occurs_at(s, p, from) == occurs_at(t, p, from - base)) by {
            assert(s.subrange(from, from + p.len()) == t.subrange(
                from - base,
                from - base + p.len(),
            ));
        }
        if !occurs_at(s, p, from) {
            lemma_find_shift(s, p, base, from + 1);
        }
    }
}

/// `s` with every occurrence of `from` replaced by `to`, as `str::replace`.
pub fn replace_chars(s: &[char], from: &[char], to: &[char]) -> (r: Vec<char>)
    requires
        from@.len() > 0,
    ensures
        r@ == replace_seq(s@, from@, to@),
{
    let mut r: Vec<char> = Vec::new();
    let mut pos: usize = 0;
    assert(s@.skip(0) == s@);
    while pos <= s.len()
        invariant
            from@.len() > 0,
            pos <= s@.len(),
            r@ + replace_seq(s@.skip(pos as int), from@, to@) == replace_seq(s@, from@, to@),
        decreases s@.len() + 1 - pos,
    {
        let ghost rest = s@.skip(pos as int);
        proof {
            lemma_find_shift(s@, from@, pos as int, pos as int);
            lemma_find_from(s@, from@, pos as int);
        }
        match find_chars(s, from, pos) {
            Some(i) => {
                let piece = copy_range(s, pos, i);
                push_all(&mut r, piece.as_slice());
                push_all(&mut r, to);
                assert(rest.take(i - pos) == piece@);
                assert(rest.skip(i - pos + from@.len()) == s@.skip(i + from@.len()));
                pos = i + from.len();
            },
            None => {
                let piece = copy_range(s, pos, s.len());
                push_all(&mut r, piece.as_slice());
                assert(piece@ == rest);
                assert(r@ == replace_seq(s@, from@, to@));
                return r;
            },
        }
    }
    r
}

} // verus!

verus! {

/// `a` and `b` hold the same characters.
pub fn seq_eq(a: &[char], b: &[char]) -> (r: bool)
    ensures
        r == (a@ == b@),
{
    if a.len() != b.len() {
        return false;
    }
    let mut i: usize = 0;
    while i < a.len()
        invariant
            a@.len() == b@.len(),
            i <= a@.len(),
            forall|k: int| 0 <= k < i ==> a@[k] == b@[k],
        decreases a@.len() - i,
    {
        if a[i] != b[i] {
            return false;
        }
        i = i + 1;
    }
    assert(a@ =~= b@);
    true
}

} // verus!

verus! {

/// `cur` with `line` appended on a line of its own; an empty `cur` takes
/// `line` as it is.
pub open spec fn join_line(cur: Seq<char>, line: Seq<char>) -> Seq<char> {
    if cur.len() == 0 {
        line
    } else {
        cur + seq!['\n'] + line
    }
}

/// Appends `line` to `cur` on a line of its own (nothing is inserted before
/// the first line).
pub fn append_line(cur: &mut Vec<char>, line: &[char])
    ensures
        final(cur)@ == join_line(old(cur)@, line@),
{
    if cur.len() > 0 {
        cur.push('\n');
    }
    push_all(cur, line);
}

/// `ls` joined with `'\n'`, as `[&str]::join("\n")`.
pub open spec fn join_newline(ls: Seq<Seq<char>>) -> Seq<char>
    decreases ls.len(),
{
    if ls.len() == 0 {
        seq![]
    } else if ls.len() == 1 {
        ls[0]
    } else {
        join_newline(ls.drop_last()) + seq!['\n'] + ls.last()
    }
}

/// The first `n` lines of `ls`, joined with `'\n'`.
pub fn join_lines(ls: &Vec<Vec<char>>, n: usize) -> (r: Vec<char>)
    requires
        n <= ls@.len(),
    ensures
        r@ == join_newline(seqs_of(ls@).take(n as int)),
{
    let mut r: Vec<char> = Vec::new();
    let mut i: usize = 0;
    while i < n
        invariant
            n <= ls@.len(),
            i <= n,
            r@ == join_newline(seqs_of(ls@).take(i as int)),
        decreases n - i,
    {
        assert(seqs_of(ls@).take(i + 1).drop_last() =~= seqs_of(ls@).take(i as int));
        if i > 0 {
            r.push('\n');
        }
        push_all(&mut r, ls[i].as_slice());
        proof {
            if i == 0 {
                assert(seqs_of(ls@).take(1) =~= seq![ls@[0]@]);
            }
        }
        i = i + 1;
    }
    r
}

} // verus!
