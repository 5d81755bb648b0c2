//! Terminal image output: the half-block cells of an RGBA image, the ANSI
//! sequences that draw them, and the Kitty graphics protocol sequence that
//! carries a PNG.

use vstd::prelude::*;

use crate::sync::{decimal, push_decimal};
use base64::Engine;
use image::ImageEncoder;
use crate::text::{chars_of, copy_range, push_all, string_of};

verus! {

/// The colour of pixel `(x, y)` of a `width`-pixel-wide RGBA image held
/// row-major in `raw`, four bytes a pixel.
pub open spec fn pixel_rgb(raw: Seq<u8>, width: nat, x: nat, y: nat) -> (u8, u8, u8) {
    let i: int = ((y * width + x) * 4) as int;
    (raw[i], raw[i + 1], raw[i + 2])
}

/// The rows of half-block cells an image of `height` pixel rows fills.
pub open spec fn cell_rows(height: nat) -> nat {
    height / 2 + height % 2
}

/// The cell at column `x`, cell row `y`: the upper pixel's colour and the
/// lower one's (the upper again below the last pixel row).
pub open spec fn halfblock_cell(raw: Seq<u8>, width: nat, height: nat, x: nat, y: nat) -> (
    (u8, u8, u8),
    (u8, u8, u8),
) {
    let top = pixel_rgb(raw, width, x, 2 * y);
    let bottom = if 2 * y + 1 < height {
        pixel_rgb(raw, width, x, 2 * y + 1)
    } else {
        top
    };
    (top, bottom)
}

/// The visible cells of an image drawn with upper-half blocks into at most
/// `max_cols` columns and `max_rows` rows, row by row.
pub open spec fn halfblock_grid(
    raw: Seq<u8>,
    width: nat,
    height: nat,
    max_cols: nat,
    max_rows: nat,
) -> Seq<Seq<((u8, u8, u8), (u8, u8, u8))>> {
    let rows = if cell_rows(height) < max_rows {
        cell_rows(height)
    } else {
        max_rows
    };
    let cols = if width < max_cols {
        width
    } else {
        max_cols
    };
    Seq::new(rows, |y: int| Seq::new(cols, |x: int| halfblock_cell(raw, width, height, x as nat, y as nat)))
}

proof fn lemma_pixel_in_bounds(width: nat, height: nat, x: nat, y: nat)
    requires
        x < width,
        y < height,
    ensures
        y * width <= y * width + x,
        y * width + x < width * height,
        (y * width + x) * 4 + 3 < width * height * 4,
{
    assert(y * width + x < width * height) by (nonlinear_arith)
        requires
            x < width,
            y < height,
    ;
}

fn pixel_at(raw: &[u8], width: u32, height: u32, x: u32, y: u32) -> (r: (u8, u8, u8))
    requires
        raw@.len() == width * height * 4,
        x < width,
        y < height,
    ensures
        r == pixel_rgb(raw@, width as nat, x as nat, y as nat),
{
    proof {
        lemma_pixel_in_bounds(width as nat, height as nat, x as nat, y as nat);
    }
    let n = raw.len();
    assert(n == width * height * 4);
    assert(y * width < n);
    let row_start = (y as usize) * (width as usize);
    assert(row_start == y * width);
    let i = (row_start + (x as usize)) * 4;
    (raw[i], raw[i + 1], raw[i + 2])
}

/// The half-block cells of an RGBA image (`raw` row-major, `width` by
/// `height` pixels) that fit in `max_cols` by `max_rows` cells.
pub fn halfblock_cells(raw: &[u8], width: u32, height: u32, max_cols: u16, max_rows: u16) -> (r:
    Vec<Vec<((u8, u8, u8), (u8, u8, u8))>>)
    requires
        raw@.len() == width * height * 4,
    ensures
        r@.len() == halfblock_grid(raw@, width as nat, height as nat, max_cols as nat, max_rows as nat).len(),
        forall|y: int|
            0 <= y < r@.len() ==> #[trigger] r@[y]@ == halfblock_grid(
                raw@,
                width as nat,
                height as nat,
                max_cols as nat,
                max_rows as nat,
            )[y],
{
    let ghost grid = halfblock_grid(raw@, width as nat, height as nat, max_cols as nat, max_rows as nat);
    let total_rows: u32 = height / 2 + height % 2;
    let rows: u32 = if total_rows < max_rows as u32 {
        total_rows
    } else {
        max_rows as u32
    };
    let cols: u32 = if width < max_cols as u32 {
        width
    } else {
        max_cols as u32
    };
    let mut out: Vec<Vec<((u8, u8, u8), (u8, u8, u8))>> = Vec::new();
    let mut ty: u32 = 0;
    while ty < rows
        invariant
            raw@.len() == width * height * 4,
            grid == halfblock_grid(raw@, width as nat, height as nat, max_cols as nat, max_rows as nat),
            rows == grid.len(),
            cols <= width,
            rows <= cell_rows(height as nat),
            forall|yy: int| 0 <= yy < grid.len() ==> (#[trigger] grid[yy]).len() == cols,
            ty <= rows,
            out@.len() == ty,
            forall|yy: int| 0 <= yy < ty ==> #[trigger] out@[yy]@ == grid[yy],
        decreases rows - ty,
    {
        let mut row: Vec<((u8, u8, u8), (u8, u8, u8))> = Vec::new();
        let mut tx: u32 = 0;
        while tx < cols
            invariant
                raw@.len() == width * height * 4,
                grid == halfblock_grid(raw@, width as nat, height as nat, max_cols as nat, max_rows as nat),
                cols <= width,
                ty < rows,
                rows == grid.len(),
                forall|yy: int| 0 <= yy < grid.len() ==> (#[trigger] grid[yy]).len() == cols,
                rows <= cell_rows(height as nat),
                grid[ty as int].len() == cols,
                tx <= cols,
                row@.len() == tx,
                forall|xx: int| 0 <= xx < tx ==> #[trigger] row@[xx] == grid[ty as int][xx],
            decreases cols - tx,
        {
            assert(2 * ty < height);
            let top = pixel_at(raw, width, height, tx, 2 * ty);
            let bottom = if 2 * ty + 1 < height {
                pixel_at(raw, width, height, tx, 2 * ty + 1)
            } else {
                top
            };
            assert(grid[ty as int][tx as int] == halfblock_cell(
                raw@,
                width as nat,
                height as nat,
                tx as nat,
                ty as nat,
            ));
            row.push((top, bottom));
            tx = tx + 1;
        }
        assert(row@ =~= grid[ty as int]);
        out.push(row);
        ty = ty + 1;
    }
    out
}

} // verus!

verus! {

/// `ESC [ row ; col H`: move the cursor (1-based).
pub open spec fn cursor_to(row: nat, col: nat) -> Seq<char> {
    seq!['\x1b', '['] + decimal(row) + seq![';'] + decimal(col) + seq!['H']
}

/// One cell drawn with 24-bit ANSI colours: the upper half-block in the
/// upper pixel's colour over the lower pixel's colour.
pub open spec fn ansi_cell(c: ((u8, u8, u8), (u8, u8, u8))) -> Seq<char> {
    seq!['\x1b', '[', '3', '8', ';', '2', ';'] + decimal(c.0.0 as nat) + seq![';'] + decimal(
        c.0.1 as nat,
    ) + seq![';'] + decimal(c.0.2 as nat) + seq![';', '4', '8', ';', '2', ';'] + decimal(
        c.1.0 as nat,
    ) + seq![';'] + decimal(c.1.1 as nat) + seq![';'] + decimal(c.1.2 as nat) + seq!['m', '▀']
}

/// The cells of a row, drawn one after the other.
pub open spec fn ansi_row(cells: Seq<((u8, u8, u8), (u8, u8, u8))>) -> Seq<char>
    decreases cells.len(),
{
    if cells.len() == 0 {
        seq![]
    } else {
        ansi_row(cells.drop_last()) + ansi_cell(cells.last())
    }
}

/// The rows of `grid` drawn with the top-left cell at column `x`, row `y`
/// (0-based): each row starts with a cursor move.
pub open spec fn ansi_rows(grid: Seq<Seq<((u8, u8, u8), (u8, u8, u8))>>, x: nat, y: nat) -> Seq<
    char,
>
    decreases grid.len(),
{
    if grid.len() == 0 {
        seq![]
    } else {
        ansi_rows(grid.drop_last(), x, y) + cursor_to(y + grid.len(), x + 1) + ansi_row(
            grid.last(),
        )
    }
}

/// `ESC [ 0 m`: reset the colours.
pub open spec fn ansi_reset() -> Seq<char> {
    seq!['\x1b', '[', '0', 'm']
}

fn push_ansi_cell(out: &mut Vec<char>, c: ((u8, u8, u8), (u8, u8, u8)))
    ensures
        final(out)@ == old(out)@ + ansi_cell(c),
{
    out.push('\x1b');
    out.push('[');
    out.push('3');
    out.push('8');
    out.push(';');
    out.push('2');
    out.push(';');
    push_decimal(out, c.0.0 as u64);
    out.push(';');
    push_decimal(out, c.0.1 as u64);
    out.push(';');
    push_decimal(out, c.0.2 as u64);
    out.push(';');
    out.push('4');
    out.push('8');
    out.push(';');
    out.push('2');
    out.push(';');
    push_decimal(out, c.1.0 as u64);
    out.push(';');
    push_decimal(out, c.1.1 as u64);
    out.push(';');
    push_decimal(out, c.1.2 as u64);
    out.push('m');
    out.push('▀');
    assert(final(out)@ =~= old(out)@ + ansi_cell(c));
}

fn push_cursor_to(out: &mut Vec<char>, row: u64, col: u64)
    ensures
        final(out)@ == old(out)@ + cursor_to(row as nat, col as nat),
{
    out.push('\x1b');
    out.push('[');
    push_decimal(out, row);
    out.push(';');
    push_decimal(out, col);
    out.push('H');
    assert(final(out)@ =~= old(out)@ + cursor_to(row as nat, col as nat));
}

/// The ANSI text that draws an RGBA image as half-block cells with the
/// top-left cell at column `x`, row `y`, within `cols` by `rows` cells; the
/// colours are reset at the end.
pub fn ansi_halfblocks(
    raw: &[u8],
    width: u32,
    height: u32,
    x: u16,
    y: u16,
    cols: u16,
    rows: u16,
) -> (r: String)
    requires
        raw@.len() == width * height * 4,
        x < u16::MAX,
        y + rows <= u16::MAX,
    ensures
        r@ == ansi_rows(
            halfblock_grid(raw@, width as nat, height as nat, cols as nat, rows as nat),
            x as nat,
            y as nat,
        ) + ansi_reset(),
{
    let grid = halfblock_cells(raw, width, height, cols, rows);
    let ghost g = halfblock_grid(raw@, width as nat, height as nat, cols as nat, rows as nat);
    let mut out: Vec<char> = Vec::new();
    let mut ty: usize = 0;
    assert(g.take(0) =~= seq![]);
    assert(g.len() <= rows);
    while ty < grid.len()
        invariant
            grid@.len() == g.len(),
            g.len() <= rows,
            y + rows <= u16::MAX,
            x < u16::MAX,
            forall|yy: int| 0 <= yy < grid@.len() ==> #[trigger] grid@[yy]@ == g[yy],
            ty <= grid@.len(),
            out@ == ansi_rows(g.take(ty as int), x as nat, y as nat),
        decreases grid@.len() - ty,
    {
        assert(g.take(ty + 1).drop_last() =~= g.take(ty as int));
        push_cursor_to(&mut out, y as u64 + ty as u64 + 1, x as u64 + 1);
        let ghost start = out@;
        let row = &grid[ty];
        let mut tx: usize = 0;
        assert(row@.take(0) =~= seq![]);
        while tx < row.len()
            invariant
                tx <= row@.len(),
                out@ == start + ansi_row(row@.take(tx as int)),
            decreases row@.len() - tx,
        {
            assert(row@.take(tx + 1).drop_last() =~= row@.take(tx as int));
            push_ansi_cell(&mut out, row[tx]);
            assert(out@ =~= start + ansi_row(row@.take(tx + 1)));
            tx = tx + 1;
        }
        assert(row@.take(tx as int) =~= row@);
        assert(g.take(ty + 1).last() == g[ty as int]);
        assert(out@ =~= ansi_rows(g.take(ty + 1), x as nat, y as nat));
        ty = ty + 1;
    }
    assert(g.take(ty as int) =~= g);
    out.push('\x1b');
    out.push('[');
    out.push('0');
    out.push('m');
    assert(out@ =~= ansi_rows(g, x as nat, y as nat) + ansi_reset());
    string_of(out.as_slice())
}

} // verus!

verus! {

/// The size of one piece of a chunked Kitty transmission.
pub open spec fn kitty_chunk() -> nat {
    4096
}

/// `ESC _ G` opens a Kitty graphics command; `ESC \` ends it.
pub open spec fn apc_open() -> Seq<char> {
    seq!['\x1b', '_', 'G']
}

/// `ESC \`.
pub open spec fn apc_close() -> Seq<char> {
    seq!['\x1b', '\\']
}

/// `a=T,f=100,c=<cols>,r=<rows>`: transmit and show a PNG over `cols` by
/// `rows` cells.
pub open spec fn kitty_header(cols: nat, rows: nat) -> Seq<char> {
    seq!['a', '=', 'T', ',', 'f', '=', '1', '0', '0', ',', 'c', '='] + decimal(cols) + seq![
        ',',
        'r',
        '=',
    ] + decimal(rows)
}

/// The commands that carry the rest `rest` of the base64 payload in chunks
/// of 4096 characters: the first names the image, each says whether more
/// follow (`m=1`) or not (`m=0`).
pub open spec fn kitty_chunks(rest: Seq<char>, first: bool, cols: nat, rows: nat) -> Seq<char>
    decreases rest.len(),
{
    let last = rest.len() <= kitty_chunk();
    let piece = if last {
        rest
    } else {
        rest.take(kitty_chunk() as int)
    };
    let m: nat = if last {
        0
    } else {
        1
    };
    let cmd = if first {
        apc_open() + kitty_header(cols, rows) + seq![',', 'm', '='] + decimal(m) + seq![';'] + piece
            + apc_close()
    } else {
        apc_open() + seq!['m', '='] + decimal(m) + seq![';'] + piece + apc_close()
    };
    if last {
        cmd
    } else {
        cmd + kitty_chunks(rest.skip(kitty_chunk() as int), false, cols, rows)
    }
}

/// The Kitty graphics sequence that shows the base64 PNG `b64` with its
/// top-left cell at column `x`, row `y` (0-based): a cursor move, then one
/// command, or chunked commands when the payload is longer than a chunk.
pub open spec fn kitty_sequence(b64: Seq<char>, x: nat, y: nat, cols: nat, rows: nat) -> Seq<char> {
    cursor_to(y + 1, x + 1) + if b64.len() <= kitty_chunk() {
        apc_open() + kitty_header(cols, rows) + seq![';'] + b64 + apc_close()
    } else {
        kitty_chunks(b64, true, cols, rows)
    }
}

fn push_kitty_header(out: &mut Vec<char>, cols: u16, rows: u16)
    ensures
        final(out)@ == old(out)@ + apc_open() + kitty_header(cols as nat, rows as nat),
{
    out.push('\x1b');
    out.push('_');
    out.push('G');
    push_all(out, chars_of("a=T,f=100,c=").as_slice());
    proof {
        reveal_strlit("a=T,f=100,c=");
    }
    push_decimal(out, cols as u64);
    out.push(',');
    out.push('r');
    out.push('=');
    push_decimal(out, rows as u64);
    assert(final(out)@ =~= old(out)@ + apc_open() + kitty_header(cols as nat, rows as nat));
}

/// The Kitty graphics protocol text that shows the base64 PNG `b64` over
/// `cols` by `rows` cells with its top-left cell at column `x`, row `y`.
pub fn kitty_escape(b64: &str, x: u16, y: u16, cols: u16, rows: u16) -> (r: String)
    requires
        vstd::utf8::is_ascii_chars(b64@),
    ensures
        r@ == kitty_sequence(b64@, x as nat, y as nat, cols as nat, rows as nat),
{
    let s = chars_of(b64);
    let mut out: Vec<char> = Vec::new();
    push_cursor_to(&mut out, y as u64 + 1, x as u64 + 1);
    if s.len() <= 4096 {
        push_kitty_header(&mut out, cols, rows);
        out.push(';');
        push_all(&mut out, s.as_slice());
        out.push('\x1b');
        out.push('\\');
        assert(out@ =~= kitty_sequence(b64@, x as nat, y as nat, cols as nat, rows as nat));
        return string_of(out.as_slice());
    }
    let ghost head = out@;
    let mut pos: usize = 0;
    let mut done = false;
    assert(s@.skip(0) =~= s@);
    while !done
        invariant
            s@ == b64@,
            s@.len() > 4096,
            pos <= s@.len(),
            done ==> out@ == head + kitty_chunks(s@, true, cols as nat, rows as nat),
            !done ==> pos < s@.len(),
            !done ==> out@ + kitty_chunks(s@.skip(pos as int), pos == 0, cols as nat, rows as nat)
                == head + kitty_chunks(s@, true, cols as nat, rows as nat),
        decreases s@.len() - pos + (if done {
            0int
        } else {
            1int
        }),
    {
        let ghost rest = s@.skip(pos as int);
        let ghost before = out@;
        let remaining = s.len() - pos;
        let last = remaining <= 4096;
        let end = if last {
            s.len()
        } else {
            pos + 4096
        };
        let piece = copy_range(s.as_slice(), pos, end);
        assert(piece@ =~= (if last {
            rest
        } else {
            rest.take(4096)
        }));
        let m: u64 = if last {
            0
        } else {
            1
        };
        if pos == 0 {
            push_kitty_header(&mut out, cols, rows);
            out.push(',');
            out.push('m');
            out.push('=');
        } else {
            out.push('\x1b');
            out.push('_');
            out.push('G');
            out.push('m');
            out.push('=');
        }
        push_decimal(&mut out, m);
        out.push(';');
        push_all(&mut out, piece.as_slice());
        out.push('\x1b');
        out.push('\\');
        let ghost cmd = out@.skip(before.len() as int);
        assert(out@ =~= before + cmd);
        if last {
            assert(cmd =~= kitty_chunks(rest, pos == 0, cols as nat, rows as nat));
            done = true;
        } else {
            assert(rest.skip(4096) =~= s@.skip(pos + 4096));
            assert(cmd + kitty_chunks(s@.skip(pos + 4096), false, cols as nat, rows as nat)
                =~= kitty_chunks(rest, pos == 0, cols as nat, rows as nat));
            pos = pos + 4096;
        }
    }
    assert(out@ =~= kitty_sequence(b64@, x as nat, y as nat, cols as nat, rows as nat));
    string_of(out.as_slice())
}

} // verus!

verus! {

/// What `PngEncoder::write_image` writes for the RGBA pixels `raw` of a
/// `width` by `height` image: `None` when it reports an error.
pub uninterp spec fn png_of_rgba(raw: Seq<u8>, width: u32, height: u32) -> Option<Seq<u8>>;

/// `image::codecs::png::PngEncoder::write_image` with 8-bit RGBA: encodes
/// the image as PNG into a fresh buffer. The contract names the result,
/// which depends on the pixels and size alone; the encoder panics unless
/// the buffer holds exactly four bytes per pixel.
#[verifier::external_body]
fn encode_png(raw: &[u8], width: u32, height: u32) -> (r: Option<Vec<u8>>)
    requires
        raw@.len() == width * height * 4,
    ensures
        match r {
            Some(p) => png_of_rgba(raw@, width, height) == Some(p@),
            None => png_of_rgba(raw@, width, height) is None,
        },
{
    let mut buf: Vec<u8> = Vec::new();
    match image::codecs::png::PngEncoder::new(&mut buf).write_image(
        raw,
        width,
        height,
        image::ExtendedColorType::Rgba8,
    ) {
        Ok(()) => Some(buf),
        Err(_) => None,
    }
}

/// What the standard padded base64 engine makes of `bytes`.
pub uninterp spec fn base64_standard(bytes: Seq<u8>) -> Seq<char>;

/// The length of the padded base64 text of `n` bytes.
pub open spec fn base64_len(n: nat) -> nat {
    n / 3 * 4 + if n % 3 > 0 {
        4nat
    } else {
        0nat
    }
}

/// `base64::engine::general_purpose::STANDARD.encode`: RFC 4648 base64
/// with padding, whose alphabet is ASCII. The contract names the text,
/// which depends on `bytes` alone, and states that it is ASCII; the engine
/// panics when the text's length would not fit in a `usize`.
#[verifier::external_body]
fn base64_encode(bytes: &[u8]) -> (r: String)
    requires
        base64_len(bytes@.len()) <= usize::MAX,
    ensures
        r@ == base64_standard(bytes@),
        vstd::utf8::is_ascii_chars(r@),
{
    base64::engine::general_purpose::STANDARD.encode(bytes)
}

/// The base64 PNG that the Kitty protocol sends for an RGBA image (`raw`,
/// `width` by `height` pixels): `None` when PNG encoding fails, or when the
/// PNG is too long for its base64 text to fit in memory.
pub fn encode_kitty_png(raw: &[u8], width: u32, height: u32) -> (r: Option<String>)
    requires
        raw@.len() == width * height * 4,
    ensures
        match png_of_rgba(raw@, width, height) {
            Some(p) => if base64_len(p.len()) <= usize::MAX {
                r matches Some(t) && t@ == base64_standard(p) && vstd::utf8::is_ascii_chars(t@)
            } else {
                r is None
            },
            None => r is None,
        },
{
    match encode_png(raw, width, height) {
        Some(png) => {
            let n = png.len();
            let full = n / 3;
            let rem = n % 3;
            let fits = match full.checked_mul(4) {
                Some(q) => if rem > 0 {
                    q.checked_add(4).is_some()
                } else {
                    true
                },
                None => false,
            };
            if fits {
                Some(base64_encode(png.as_slice()))
            } else {
                None
            }
        },
        None => None,
    }
}

/// The largest width or height an image may decode to: larger images are
/// refused, which defuses decompression bombs.
pub const MAX_IMAGE_DIM: u32 = 8192;

/// What `image`'s reader makes of the encoded image `bytes` (format guessed
/// from the bytes, width and height limited to `max_dim`), converted to
/// 8-bit RGBA: width, height and pixels, or `None` when it fails.
pub uninterp spec fn image_decoded(bytes: Seq<u8>, max_dim: u32) -> Option<(u32, u32, Seq<u8>)>;

/// `image::ImageReader::decode` on `bytes`, with the format guessed from the
/// bytes and `Limits` whose `max_image_width` and `max_image_height` are
/// `max_dim`, then `to_rgba8`. The contract names the result, which depends
/// on the arguments alone, and states what the crate's source shows of it:
/// every decoder checks the limits against the image's size before
/// decoding, so a decoded image is at most `max_dim` each way, and an RGBA
/// buffer holds four bytes a pixel.
#[verifier::external_body]
fn image_decode_capped(bytes: &[u8], max_dim: u32) -> (r: Option<(u32, u32, Vec<u8>)>)
    ensures
        match r {
            Some((w, h, raw)) => {
                &&& image_decoded(bytes@, max_dim) == Some((w, h, raw@))
                &&& w <= max_dim && h <= max_dim
                &&& raw@.len() == w * h * 4
            },
            None => image_decoded(bytes@, max_dim) is None,
        },
{
    let mut reader = image::ImageReader::new(std::io::Cursor::new(bytes)).with_guessed_format().ok()?;
    let mut limits = image::Limits::default();
    limits.max_image_width = Some(max_dim);
    limits.max_image_height = Some(max_dim);
    reader.limits(limits);
    let img = reader.decode().ok()?.to_rgba8();
    Some((img.width(), img.height(), img.into_raw()))
}

/// Decodes the encoded image `bytes` to RGBA pixels, refusing images wider
/// or taller than [`MAX_IMAGE_DIM`]: width, height and four bytes a pixel,
/// row-major; `None` when the bytes are no image the reader can decode
/// within the limit.
pub fn decode_image(bytes: &[u8]) -> (r: Option<(u32, u32, Vec<u8>)>)
    ensures
        match r {
            Some((w, h, raw)) => {
                &&& image_decoded(bytes@, MAX_IMAGE_DIM) == Some((w, h, raw@))
                &&& w <= MAX_IMAGE_DIM && h <= MAX_IMAGE_DIM
                &&& raw@.len() == w * h * 4
            },
            None => image_decoded(bytes@, MAX_IMAGE_DIM) is None,
        },
{
    image_decode_capped(bytes, MAX_IMAGE_DIM)
}

} // verus!
