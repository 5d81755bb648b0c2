//! The text layout the renderer relies on: styled runs of text, how many
//! rows a block takes, the typewriter's partial line, the padded content
//! area and the status bar's segments.

use vstd::prelude::*;

use crate::markdown::{blocks_v, spans_v, Block, BlockV, Span, SpanV};
use crate::text::{chars_of, lines, lines_of, push_all, string_of};
use crate::theme::{plain_style, Style, Theme};
use unicode_width::UnicodeWidthStr;
use vstd::string::StringSliceAdditionalSpecFns;

verus! {

/// What `UnicodeWidthStr::width` returns for the text `s`: its width in
/// terminal columns.
pub uninterp spec fn str_width(s: Seq<char>) -> usize;

/// `UnicodeWidthStr::width`: the display width of `s` in columns. The
/// contract names the result, which depends on `s` alone.
#[verifier::external_body]
fn display_width(s: &str) -> (r: usize)
    ensures
        r == str_width(s@),
{
    s.width()
}

/// A cell rectangle on the terminal.
#[derive(Debug, Clone, Copy, PartialEq, Eq, Structural)]
pub struct Rect {
    pub x: u16,
    pub y: u16,
    pub width: u16,
    pub height: u16,
}

/// `area` shrunk by `h_pad` columns on each side and `v_pad` rows at top and
/// bottom (an area too small for the padding keeps no width or height).
pub fn padded(area: Rect, h_pad: u16, v_pad: u16) -> (r: Rect)
    requires
        area.x + h_pad <= u16::MAX,
        area.y + v_pad <= u16::MAX,
        h_pad * 2 <= u16::MAX,
        v_pad * 2 <= u16::MAX,
    ensures
        r.x == area.x + h_pad,
        r.y == area.y + v_pad,
        r.width == (if area.width >= 2 * h_pad {
            area.width - 2 * h_pad
        } else {
            0
        }),
        r.height == (if area.height >= 2 * v_pad {
            area.height - 2 * v_pad
        } else {
            0
        }),
{
    Rect {
        x: area.x + h_pad,
        y: area.y + v_pad,
        width: area.width.saturating_sub(h_pad * 2),
        height: area.height.saturating_sub(v_pad * 2),
    }
}

/// A run of text with one style.
#[derive(Debug, Clone, PartialEq, Eq)]
pub struct StyledSpan {
    pub text: String,
    pub style: Style,
}

impl View for StyledSpan {
    type V = (Seq<char>, Style);

    open spec fn view(&self) -> (Seq<char>, Style) {
        (self.text@, self.style)
    }
}

/// The values of a run of styled spans.
pub open spec fn styled_v(s: Seq<StyledSpan>) -> Seq<(Seq<char>, Style)> {
    s.map_values(|x: StyledSpan| x@)
}

/// How a markdown span shows with theme `t`: plain, bold and italic text in
/// the theme's styles, inline code wrapped in backticks in the code style.
pub open spec fn styled_of(s: SpanV, t: Theme) -> (Seq<char>, Style) {
    match s {
        SpanV::Plain(x) => (x, plain_style(Some(t.fg), Some(t.bg))),
        SpanV::Bold(x) => (x, Style { fg: Some(t.bold), bg: Some(t.bg), bold: true, italic: false }),
        SpanV::Italic(x) => (
            x,
            Style { fg: Some(t.italic), bg: Some(t.bg), bold: false, italic: true },
        ),
        SpanV::Code(x) => (seq!['`'] + x + seq!['`'], plain_style(Some(t.code_fg), Some(t.code_bg))),
    }
}

/// The styled runs of a line of markdown spans.
pub fn spans_to_line(spans: &[Span], theme: &Theme) -> (r: Vec<StyledSpan>)
    ensures
        styled_v(r@) == spans_v(spans@).map_values(|s: SpanV| styled_of(s, *theme)),
{
    let mut out: Vec<StyledSpan> = Vec::new();
    let mut i: usize = 0;
    while i < spans.len()
        invariant
            i <= spans@.len(),
            styled_v(out@) == spans_v(spans@).take(i as int).map_values(
                |s: SpanV| styled_of(s, *theme),
            ),
        decreases spans@.len() - i,
    {
        let span = match &spans[i] {
            Span::Plain(t) => StyledSpan { text: t.clone(), style: theme.body_style() },
            Span::Bold(t) => StyledSpan { text: t.clone(), style: theme.bold_style() },
            Span::Italic(t) => StyledSpan { text: t.clone(), style: theme.italic_style() },
            Span::Code(t) => {
                let mut cs: Vec<char> = Vec::new();
                cs.push('`');
                push_all(&mut cs, chars_of(t.as_str()).as_slice());
                cs.push('`');
                assert(cs@ =~= seq!['`'] + t@ + seq!['`']);
                StyledSpan { text: string_of(cs.as_slice()), style: theme.code_style() }
            },
        };
        assert(span@ == styled_of(spans@[i as int]@, *theme));
        let ghost before = styled_v(out@);
        out.push(span);
        proof {
            assert(styled_v(out@) =~= before.push(span@));
            assert(spans_v(spans@).take(i + 1) =~= spans_v(spans@).take(i as int).push(
                spans@[i as int]@,
            ));
            assert(spans_v(spans@).take(i + 1).map_values(|s: SpanV| styled_of(s, *theme))
                =~= spans_v(spans@).take(i as int).map_values(|s: SpanV| styled_of(s, *theme)).push(
                styled_of(spans@[i as int]@, *theme),
            ));
        }
        i = i + 1;
    }
    assert(spans_v(spans@).take(i as int) =~= spans_v(spans@));
    out
}

} // verus!

verus! {

/// The first `n` characters of the runs `ss`, each run keeping its style;
/// a run cut short ends the result, and so does running out of characters
/// exactly at the end of a run.
pub open spec fn typed_runs(ss: Seq<(Seq<char>, Style)>, n: nat) -> Seq<(Seq<char>, Style)>
    decreases ss.len(),
{
    if ss.len() == 0 {
        seq![]
    } else if n >= ss[0].0.len() {
        let rest = (n - ss[0].0.len()) as nat;
        if rest == 0 {
            seq![ss[0]]
        } else {
            seq![ss[0]] + typed_runs(ss.drop_first(), rest)
        }
    } else {
        seq![(ss[0].0.take(n as int), ss[0].1)]
    }
}

/// The cursor shown after the typed text.
pub open spec fn cursor_text() -> Seq<char> {
    seq!['▌']
}

/// A code line typed up to `n` characters, followed by the cursor.
pub open spec fn typewriter_line(ss: Seq<(Seq<char>, Style)>, n: nat, cursor: Style) -> Seq<
    (Seq<char>, Style),
> {
    if n == 0 {
        seq![(cursor_text(), cursor)]
    } else {
        typed_runs(ss, n).push((cursor_text(), cursor))
    }
}

/// The partly typed line of the code-block typewriter: the first
/// `chars_to_show` characters of `spans`, styles kept, then a cursor run.
pub fn typewriter_partial_line(spans: &[StyledSpan], chars_to_show: usize, cursor_style: Style) -> (r:
    Vec<StyledSpan>)
    ensures
        styled_v(r@) == typewriter_line(styled_v(spans@), chars_to_show as nat, cursor_style),
{
    let mut out: Vec<StyledSpan> = Vec::new();
    if chars_to_show > 0 {
        let mut left: usize = chars_to_show;
        let mut i: usize = 0;
        let mut done = false;
        let ghost ss = styled_v(spans@);
        assert(styled_v(out@) =~= seq![]);
        assert(ss.skip(0) =~= ss);
        assert(styled_v(out@) + typed_runs(ss.skip(0), left as nat) =~= typed_runs(ss, left as nat));
        while i < spans.len() && !done
            invariant
                i <= spans@.len(),
                ss == styled_v(spans@),
                !done ==> left > 0,
                !done ==> styled_v(out@) + typed_runs(ss.skip(i as int), left as nat) == typed_runs(
                    ss,
                    chars_to_show as nat,
                ),
                done ==> styled_v(out@) == typed_runs(ss, chars_to_show as nat),
            decreases spans@.len() - i,
        {
            let ghost rest = ss.skip(i as int);
            assert(rest[0] == spans@[i as int]@);
            assert(rest.drop_first() =~= ss.skip(i + 1));
            let cs = chars_of(spans[i].text.as_str());
            let ghost before = styled_v(out@);
            if left >= cs.len() {
                out.push(StyledSpan { text: spans[i].text.clone(), style: spans[i].style });
                assert(styled_v(out@) =~= before.push(ss[i as int]));
                left = left - cs.len();
                if left == 0 {
                    done = true;
                    assert(before.push(ss[i as int]) =~= before + seq![rest[0]]);
                } else {
                    assert(before.push(ss[i as int]) + typed_runs(ss.skip(i + 1), left as nat)
                        =~= before + (seq![rest[0]] + typed_runs(rest.drop_first(), left as nat)));
                }
            } else {
                let part = copy_prefix(cs.as_slice(), left);
                out.push(StyledSpan { text: string_of(part.as_slice()), style: spans[i].style });
                assert(styled_v(out@) =~= before.push((rest[0].0.take(left as int), rest[0].1)));
                done = true;
            }
            i = i + 1;
        }
        if !done {
            assert(ss.skip(i as int).len() == 0);
            assert(styled_v(out@) + seq![] =~= styled_v(out@));
        }
    }
    let ghost before = styled_v(out@);
    let mut cursor: Vec<char> = Vec::new();
    cursor.push('▌');
    out.push(StyledSpan { text: string_of(cursor.as_slice()), style: cursor_style });
    assert(styled_v(out@) =~= before.push((cursor_text(), cursor_style)));
    out
}

fn copy_prefix(s: &[char], n: usize) -> (r: Vec<char>)
    requires
        n <= s@.len(),
    ensures
        r@ == s@.take(n as int),
{
    crate::text::copy_range(s, 0, n)
}

} // verus!

verus! {

/// `x / w` rounded up (`usize::div_ceil`).
pub open spec fn ceil_div(x: nat, w: nat) -> nat {
    x / w + if x % w != 0 {
        1nat
    } else {
        0nat
    }
}

fn div_ceil(x: usize, w: usize) -> (r: usize)
    requires
        w > 0,
    ensures
        r == ceil_div(x as nat, w as nat),
{
    if x % w != 0 {
        assert(w >= 2);
        assert(x / w < usize::MAX) by (nonlinear_arith)
            requires
                w >= 2,
                x <= usize::MAX,
        ;
        x / w + 1
    } else {
        x / w
    }
}

/// Every run of `ss` is ASCII text.
pub open spec fn runs_ascii(ss: Seq<(Seq<char>, Style)>) -> bool {
    forall|i: int| 0 <= i < ss.len() ==> vstd::utf8::is_ascii_chars(#[trigger] ss[i].0)
}

/// `n` held in a `usize`: `usize::MAX` when it does not fit.
pub open spec fn sat_usize(n: nat) -> usize {
    if n <= usize::MAX {
        n as usize
    } else {
        usize::MAX
    }
}

/// `n` held in a `u16`: `u16::MAX` when it does not fit.
pub open spec fn sat_u16(n: nat) -> u16 {
    if n <= u16::MAX {
        n as u16
    } else {
        u16::MAX
    }
}

/// The UTF-8 lengths of the runs, summed.
pub open spec fn byte_sum(ss: Seq<(Seq<char>, Style)>) -> nat
    decreases ss.len(),
{
    if ss.len() == 0 {
        0
    } else {
        byte_sum(ss.drop_last()) + (vstd::utf8::encode_utf8(ss.last().0).len() as usize) as nat
    }
}

/// The display widths of the runs, summed.
pub open spec fn width_sum(ss: Seq<(Seq<char>, Style)>) -> nat
    decreases ss.len(),
{
    if ss.len() == 0 {
        0
    } else {
        width_sum(ss.drop_last()) + str_width(ss.last().0) as nat
    }
}

/// The UTF-8 length of the runs in a `usize` (saturated).
pub open spec fn byte_total(ss: Seq<(Seq<char>, Style)>) -> usize {
    sat_usize(byte_sum(ss))
}

/// The display width of the runs in a `usize` (saturated).
pub open spec fn width_total(ss: Seq<(Seq<char>, Style)>) -> usize {
    sat_usize(width_sum(ss))
}

/// The rows a wrapped line of runs takes at `width` columns: its width
/// (byte length when it is all ASCII) divided by the width, rounded up, at
/// least 1 and at most `u16::MAX`; 1 when there are no columns.
pub open spec fn line_rows(ss: Seq<(Seq<char>, Style)>, width: u16) -> u16 {
    if width == 0 {
        1
    } else {
        let tw = if runs_ascii(ss) {
            byte_total(ss)
        } else {
            width_total(ss)
        };
        let rows = ceil_div(tw as nat, width as nat);
        let rows = if rows >= 1 {
            rows
        } else {
            1
        };
        if rows <= u16::MAX {
            rows as u16
        } else {
            u16::MAX
        }
    }
}

/// The number of rows the line `spans` takes when wrapped at `width`.
pub fn estimate_line_height(spans: &[StyledSpan], width: u16) -> (r: u16)
    ensures
        r == line_rows(styled_v(spans@), width),
{
    if width == 0 {
        return 1;
    }
    let ghost ss = styled_v(spans@);
    let mut ascii = true;
    let mut bytes: usize = 0;
    let mut cols: usize = 0;
    let mut i: usize = 0;
    assert(ss.take(0) =~= seq![]);
    while i < spans.len()
        invariant
            i <= spans@.len(),
            ss == styled_v(spans@),
            ascii == runs_ascii(ss.take(i as int)),
            bytes == byte_total(ss.take(i as int)),
            cols == width_total(ss.take(i as int)),
        decreases spans@.len() - i,
    {
        let ghost prev = ss.take(i as int);
        assert(ss.take(i + 1).drop_last() =~= prev);
        assert(ss.take(i + 1).last() == spans@[i as int]@);
        let s = spans[i].text.as_str();
        let a = s.is_ascii();
        assert(runs_ascii(ss.take(i + 1)) == (runs_ascii(prev) && a)) by {
            if runs_ascii(prev) && a {
                assert forall|j: int| 0 <= j < i + 1 implies vstd::utf8::is_ascii_chars(
                    #[trigger] ss.take(i + 1)[j].0,
                ) by {
                    if j < i {
                        assert(ss.take(i + 1)[j] == prev[j]);
                    }
                }
            }
            if runs_ascii(ss.take(i + 1)) {
                assert(vstd::utf8::is_ascii_chars(ss.take(i + 1)[i as int].0));
                assert forall|j: int| 0 <= j < i implies vstd::utf8::is_ascii_chars(
                    #[trigger] prev[j].0,
                ) by {
                    assert(ss.take(i + 1)[j] == prev[j]);
                }
            }
        }
        ascii = ascii && a;
        let l = s.len();
        assert(byte_sum(ss.take(i + 1)) == byte_sum(prev) + l);
        assert(width_sum(ss.take(i + 1)) == width_sum(prev) + str_width(s@));
        bytes = bytes.saturating_add(l);
        cols = cols.saturating_add(display_width(s));
        i = i + 1;
    }
    assert(ss.take(i as int) =~= ss);
    let tw = if ascii {
        bytes
    } else {
        cols
    };
    let rows = div_ceil(tw, width as usize);
    let rows = if rows >= 1 {
        rows
    } else {
        1
    };
    if rows <= u16::MAX as usize {
        rows as u16
    } else {
        u16::MAX
    }
}

} // verus!

verus! {

/// The text of a markdown span.
pub open spec fn span_text(s: SpanV) -> Seq<char> {
    match s {
        SpanV::Plain(t) => t,
        SpanV::Bold(t) => t,
        SpanV::Italic(t) => t,
        SpanV::Code(t) => t,
    }
}

/// The display widths of the spans' texts, summed.
pub open spec fn spans_width_sum(ss: Seq<SpanV>) -> nat
    decreases ss.len(),
{
    if ss.len() == 0 {
        0
    } else {
        spans_width_sum(ss.drop_last()) + str_width(span_text(ss.last())) as nat
    }
}

/// The display width of the spans' texts in a `usize` (saturated).
pub open spec fn spans_width(ss: Seq<SpanV>) -> usize {
    sat_usize(spans_width_sum(ss))
}

/// The rows a block is estimated to take at `width` columns, for vertical
/// centring: an H1 the tallest big-text font (8), other headings and rules
/// 2, a paragraph its wrapped rows plus a spacer, a list one row per item,
/// a code block its lines plus borders and a spacer (3), an image 8.
pub open spec fn block_rows(b: BlockV, width: u16) -> nat {
    match b {
        BlockV::Heading { level, .. } => if level == 1 {
            8
        } else {
            2
        },
        BlockV::Paragraph { spans } => {
            let w: nat = if width >= 1 {
                width as nat
            } else {
                1
            };
            let rows = ceil_div(spans_width(spans) as nat, w);
            let rows = if rows >= 1 {
                rows
            } else {
                1
            };
            rows + 1
        },
        BlockV::BulletList { items } => items.len(),
        BlockV::NumberedList { items } => items.len(),
        BlockV::Code { code, .. } => lines_of(code).len() + 3,
        BlockV::HorizontalRule => 2,
        BlockV::Image { .. } => 8,
    }
}

/// The estimated rows of a run of blocks, summed.
pub open spec fn blocks_rows(bs: Seq<BlockV>, width: u16) -> nat
    decreases bs.len(),
{
    if bs.len() == 0 {
        0
    } else {
        blocks_rows(bs.drop_last(), width) + block_rows(bs.last(), width)
    }
}

fn paragraph_width(spans: &[Span]) -> (r: usize)
    ensures
        r == spans_width(spans_v(spans@)),
{
    let ghost ss = spans_v(spans@);
    let mut total: usize = 0;
    let mut i: usize = 0;
    assert(ss.take(0) =~= seq![]);
    while i < spans.len()
        invariant
            i <= spans@.len(),
            ss == spans_v(spans@),
            total == spans_width(ss.take(i as int)),
        decreases spans@.len() - i,
    {
        assert(ss.take(i + 1).drop_last() =~= ss.take(i as int));
        assert(ss.take(i + 1).last() == spans@[i as int]@);
        let t = match &spans[i] {
            Span::Plain(t) => t,
            Span::Bold(t) => t,
            Span::Italic(t) => t,
            Span::Code(t) => t,
        };
        total = total.saturating_add(display_width(t.as_str()));
        i = i + 1;
    }
    assert(ss.take(i as int) =~= ss);
    total
}

fn block_height(b: &Block, width: u16) -> (r: u16)
    ensures
        r == sat_u16(block_rows(b@, width)),
{
    match b {
        Block::Heading { level, .. } => if *level == 1 {
            8
        } else {
            2
        },
        Block::Paragraph { spans } => {
            let text_len = paragraph_width(spans.as_slice());
            let w: usize = if width >= 1 {
                width as usize
            } else {
                1
            };
            let rows = div_ceil(text_len, w);
            let rows = if rows >= 1 {
                rows
            } else {
                1
            };
            sat_to_u16(rows).saturating_add(1)
        },
        Block::BulletList { items } => sat_to_u16(items.len()),
        Block::NumberedList { items } => sat_to_u16(items.len()),
        Block::Code { code, .. } => {
            let n = lines(chars_of(code.as_str()).as_slice()).len();
            sat_to_u16(n).saturating_add(3)
        },
        Block::HorizontalRule => 2,
        Block::Image { .. } => 8,
    }
}

/// `n` in a `u16`, `u16::MAX` when it does not fit.
fn sat_to_u16(n: usize) -> (r: u16)
    ensures
        r == sat_u16(n as nat),
{
    if n <= u16::MAX as usize {
        n as u16
    } else {
        u16::MAX
    }
}

/// The estimated number of rows `blocks` take at `width` columns, at most
/// `u16::MAX`: the rows are added with saturation.
pub fn estimate_height(blocks: &[Block], width: u16) -> (r: u16)
    ensures
        r == sat_u16(blocks_rows(blocks_v(blocks@), width)),
{
    let ghost bs = blocks_v(blocks@);
    let mut total: u16 = 0;
    let mut i: usize = 0;
    assert(bs.take(0) =~= seq![]);
    while i < blocks.len()
        invariant
            i <= blocks@.len(),
            bs == blocks_v(blocks@),
            total == sat_u16(blocks_rows(bs.take(i as int), width)),
        decreases blocks@.len() - i,
    {
        assert(bs.take(i + 1).drop_last() =~= bs.take(i as int));
        assert(bs.take(i + 1).last() == blocks@[i as int]@);
        total = total.saturating_add(block_height(&blocks[i], width));
        i = i + 1;
    }
    assert(bs.take(i as int) =~= bs);
    total
}

} // verus!

verus! {

/// What the status bar shows: the deck title and author, the slide number
/// out of the total, and the time since the timer was (re)started.
pub struct StatusBar<'a> {
    pub title: &'a str,
    pub author: Option<&'a str>,
    pub slide_num: usize,
    pub total: usize,
    pub elapsed_secs: u64,
}

/// The status bar's text, left to right: the title segment, the filler
/// width before the counter, the counter, the filler width after it, and
/// the timer.
pub struct StatusLine {
    pub left: String,
    pub left_pad: usize,
    pub center: String,
    pub right_pad: usize,
    pub right: String,
}

/// `n` in decimal with at least two digits (`{:02}`).
pub open spec fn two_digits(n: nat) -> Seq<char> {
    if n < 10 {
        seq!['0'] + crate::sync::decimal(n)
    } else {
        crate::sync::decimal(n)
    }
}

/// The title segment: `" title — author "`, or `" title "` without a
/// (non-empty) author.
pub open spec fn status_left(title: Seq<char>, author: Option<Seq<char>>) -> Seq<char> {
    match author {
        Some(a) => if a.len() > 0 {
            seq![' '] + title + seq![' ', '—', ' '] + a + seq![' ']
        } else {
            seq![' '] + title + seq![' ']
        },
        None => seq![' '] + title + seq![' '],
    }
}

/// The counter segment: `" n/total "`.
pub open spec fn status_center(num: nat, total: nat) -> Seq<char> {
    seq![' '] + crate::sync::decimal(num) + seq!['/'] + crate::sync::decimal(total) + seq![' ']
}

/// The timer segment: `" mm:ss "`.
pub open spec fn status_right(secs: nat) -> Seq<char> {
    seq![' '] + two_digits(secs / 60) + seq![':'] + two_digits(secs % 60) + seq![' ']
}

fn push_two_digits(out: &mut Vec<char>, n: u64)
    ensures
        final(out)@ == old(out)@ + two_digits(n as nat),
{
    if n < 10 {
        out.push('0');
        let ghost mid = out@;
        crate::sync::push_decimal(out, n);
        assert(final(out)@ =~= old(out)@ + two_digits(n as nat));
    } else {
        crate::sync::push_decimal(out, n);
    }
}

/// Lays out the status bar for a terminal `width` columns wide: the filler
/// splits what the three segments leave (their widths summed as a release
/// build does), the smaller half before the counter.
pub fn status_line(info: &StatusBar, width: u16) -> (r: StatusLine)
    ensures
        r.left@ == status_left(
            info.title@,
            match info.author {
                Some(a) => Some(a@),
                None => None,
            },
        ),
        r.center@ == status_center(info.slide_num as nat, info.total as nat),
        r.right@ == status_right(info.elapsed_secs as nat),
        ({
            let used = str_width(r.left@).wrapping_add(str_width(r.center@)).wrapping_add(
                str_width(r.right@),
            );
            let pad: int = if width >= used {
                width - used
            } else {
                0
            };
            &&& r.left_pad == pad / 2
            &&& r.right_pad == pad - pad / 2
        }),
{
    let mut left: Vec<char> = Vec::new();
    left.push(' ');
    push_all(&mut left, chars_of(info.title).as_slice());
    match info.author {
        Some(a) => {
            let acs = chars_of(a);
            if acs.len() > 0 {
                left.push(' ');
                left.push('—');
                left.push(' ');
                push_all(&mut left, acs.as_slice());
            }
        },
        None => {},
    }
    left.push(' ');
    assert(left@ =~= status_left(
        info.title@,
        match info.author {
            Some(a) => Some(a@),
            None => None,
        },
    ));
    let mut center: Vec<char> = Vec::new();
    center.push(' ');
    crate::sync::push_decimal(&mut center, info.slide_num as u64);
    center.push('/');
    crate::sync::push_decimal(&mut center, info.total as u64);
    center.push(' ');
    assert(center@ =~= status_center(info.slide_num as nat, info.total as nat));
    let mut right: Vec<char> = Vec::new();
    right.push(' ');
    push_two_digits(&mut right, info.elapsed_secs / 60);
    right.push(':');
    push_two_digits(&mut right, info.elapsed_secs % 60);
    right.push(' ');
    assert(right@ =~= status_right(info.elapsed_secs as nat));
    let left = string_of(left.as_slice());
    let center = string_of(center.as_slice());
    let right = string_of(right.as_slice());
    let used = display_width(left.as_str()).wrapping_add(display_width(center.as_str())).wrapping_add(
        display_width(right.as_str()),
    );
    let w = width as usize;
    let pad = if w >= used {
        w - used
    } else {
        0
    };
    let left_pad = pad / 2;
    StatusLine { left, left_pad, center, right_pad: pad - left_pad, right }
}

/// The help overlay's box: 38 by 18 cells, centred in an area of the
/// given size.
pub fn help_overlay_rect(area: Rect) -> (r: Rect)
    ensures
        r.x == (if area.width >= 38 {
            area.width - 38
        } else {
            0
        }) / 2,
        r.y == (if area.height >= 18 {
            area.height - 18
        } else {
            0
        }) / 2,
        r.width == 38,
        r.height == 18,
{
    Rect {
        x: area.width.saturating_sub(38) / 2,
        y: area.height.saturating_sub(18) / 2,
        width: 38,
        height: 18,
    }
}

/// The go-to overlay's box: 22 by 3 cells, centred across and starting
/// half-way down an area of the given size.
pub fn goto_overlay_rect(area: Rect) -> (r: Rect)
    ensures
        r.x == (if area.width >= 22 {
            area.width - 22
        } else {
            0
        }) / 2,
        r.y == area.height / 2,
        r.width == 22,
        r.height == 3,
{
    Rect { x: area.width.saturating_sub(22) / 2, y: area.height / 2, width: 22, height: 3 }
}

/// The rows of `content` that a centred slide uses: its estimated height
/// (at most the area's), placed half-way down the space left over.
pub fn centered_area(content: Rect, total_height: u16) -> (r: Rect)
    requires
        content.y + content.height <= u16::MAX,
    ensures
        r.x == content.x,
        r.width == content.width,
        r.y == content.y + (if content.height >= total_height {
            content.height - total_height
        } else {
            0
        }) / 2,
        r.height == (if total_height <= content.height {
            total_height
        } else {
            content.height
        }),
{
    let y_off = content.height.saturating_sub(total_height) / 2;
    Rect {
        x: content.x,
        y: content.y + y_off,
        width: content.width,
        height: if total_height <= content.height {
            total_height
        } else {
            content.height
        },
    }
}

} // verus!

verus! {

/// The presenter's timer text: `mm:ss`.
pub open spec fn clock_spec(secs: nat) -> Seq<char> {
    two_digits(secs / 60) + seq![':'] + two_digits(secs % 60)
}

/// The presenter's timer text for `secs` seconds: `mm:ss`.
pub fn clock_text(secs: u64) -> (r: String)
    ensures
        r@ == clock_spec(secs as nat),
{
    let mut out: Vec<char> = Vec::new();
    push_two_digits(&mut out, secs / 60);
    out.push(':');
    push_two_digits(&mut out, secs % 60);
    assert(out@ =~= clock_spec(secs as nat));
    string_of(out.as_slice())
}

/// A slide's speaker notes as the presenter shows them: one per line.
pub fn notes_text(notes: &[String]) -> (r: String)
    ensures
        r@ == crate::text::join_newline(crate::text::strings_v(notes@)),
{
    let ghost ns = crate::text::strings_v(notes@);
    let mut out: Vec<char> = Vec::new();
    let mut i: usize = 0;
    while i < notes.len()
        invariant
            i <= notes@.len(),
            ns == crate::text::strings_v(notes@),
            out@ == crate::text::join_newline(ns.take(i as int)),
        decreases notes@.len() - i,
    {
        assert(ns.take(i + 1).drop_last() =~= ns.take(i as int));
        if i > 0 {
            out.push('\n');
        }
        push_all(&mut out, chars_of(notes[i].as_str()).as_slice());
        proof {
            if i == 0 {
                assert(ns.take(1) =~= seq![notes@[0]@]);
            }
        }
        i = i + 1;
    }
    assert(ns.take(i as int) =~= ns);
    string_of(out.as_slice())
}

} // verus!
