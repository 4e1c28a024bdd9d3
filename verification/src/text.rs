use vstd::prelude::*;
use font8x8::UnicodeFonts;
use crate::framebuffer::{
    lemma_paint_union, paint, rect, sat_add, single, Canvas, Framebuffer,
};
use crate::render::fill_rect;

verus! {

/// The eight rows of the 8x8 glyph that font8x8's basic font (Basic Latin,
/// `U+0000` to `U+007F`) holds for a character; bit `col` of row `row` is
/// pixel `(col, row)` of the glyph.
pub uninterp spec fn basic_glyph(c: char) -> Seq<u8>;

/// font8x8's `BASIC_FONTS.get`: the glyph of `c` if the basic font holds
/// one. Its source keeps a sorted table of the 128 characters `U+0000` to
/// `U+007F` and returns the glyph found by a binary search on the
/// character, so it returns `Some` exactly for those characters, and always
/// the same rows for the same character, named `basic_glyph`. What the rows
/// hold is not stated.
#[verifier::external_body]
fn basic_font_glyph(c: char) -> (g: Option<[u8; 8]>)
    ensures
        g is Some <==> (c as u32) < 128,
        g matches Some(rows) ==> rows@ == basic_glyph(c),
{
    font8x8::BASIC_FONTS.get(c)
}

/// `c` with ASCII lowercase letters mapped to uppercase.
pub open spec fn spec_ascii_upper(c: char) -> char {
    if 'a' <= c <= 'z' {
        ((c as u32) - 32) as char
    } else {
        c
    }
}

/// `char::to_ascii_uppercase`: maps `a`..`z` to `A`..`Z` and leaves every
/// other character as it is.
pub fn ascii_upper(c: char) -> (r: char)
    ensures
        r == spec_ascii_upper(c),
{
    if 'a' <= c && c <= 'z' {
        let v = (c as u32) - 32;
        assert(v < 256);
        (v as u8) as char
    } else {
        c
    }
}

/// Whether bit `col` of `bits` is set.
pub open spec fn bit_set(bits: u8, col: int) -> bool {
    (bits >> (col as u8)) & 1u8 == 1u8
}

/// Whether pixel `(a, b)` lies in the `s * s` square drawn for glyph pixel
/// `(col, row)` of a glyph placed at `(x, y)` at scale `s`.
pub open spec fn glyph_dot(
    g: Seq<u8>,
    x: int,
    y: int,
    s: int,
    row: int,
    col: int,
    a: int,
    b: int,
) -> bool {
    &&& 0 <= row < 8
    &&& 0 <= col < 8
    &&& bit_set(g[row], col)
    &&& x + col * s <= a < sat_add(x + col * s, s)
    &&& y + row * s <= b < sat_add(y + row * s, s)
}

/// Whether pixel `(a, b)` is covered by glyph `g` drawn at `(x, y)` at
/// scale `s`.
pub open spec fn glyph_covers(g: Seq<u8>, x: int, y: int, s: int, a: int, b: int) -> bool {
    exists|row: int, col: int| #[trigger] glyph_dot(g, x, y, s, row, col, a, b)
}

/// Whether glyph `g` has any pixel set.
pub open spec fn glyph_has_ink(g: Seq<u8>) -> bool {
    exists|row: int, col: int| 0 <= row < 8 && 0 <= col < 8 && #[trigger] bit_set(g[row], col)
}

/// The canvas after drawing glyph `g` at `(x, y)` at scale `s` in `color`:
/// each set glyph pixel becomes an `s * s` square, and the pen becomes
/// `color` if any square was drawn.
pub open spec fn put_glyph(cv: Canvas, w: nat, g: Seq<u8>, x: int, y: int, s: int, color: u32) -> Canvas {
    Canvas {
        pixels: paint(cv.pixels, w, |a: int, b: int| glyph_covers(g, x, y, s, a, b), color),
        pen: if glyph_has_ink(g) {
            color
        } else {
            cv.pen
        },
    }
}

/// Fills the `scale * scale` square at `(x, y)` with `color` (its far
/// edges saturating at `usize::MAX`), clipped to the frame, and leaves
/// `color` as the current colour.
pub fn draw_scaled_pixel(framebuffer: &mut Framebuffer, x: usize, y: usize, scale: usize, color: u32)
    requires
        old(framebuffer).wf(),
    ensures
        final(framebuffer).wf(),
        final(framebuffer).same_frame(*old(framebuffer)),
        final(framebuffer).canvas() == fill_rect(
            old(framebuffer).canvas(),
            old(framebuffer).width as nat,
            x as int,
            y as int,
            scale as int,
            scale as int,
            color,
        ),
{
    framebuffer.set_current_color(color);
    let ghost start = framebuffer.buffer@;
    let ghost w = framebuffer.width as nat;
    let x1 = x.saturating_add(scale);
    let y1 = y.saturating_add(scale);
    assert(framebuffer.buffer@ =~= paint(start, w, rect(x as int, y as int, x1 as int, y as int), color));
    for py in y..y1
        invariant
            framebuffer.wf(),
            framebuffer.same_frame(*old(framebuffer)),
            framebuffer.current_color == color,
            w == framebuffer.width,
            x <= x1,
            framebuffer.buffer@ == paint(start, w, rect(x as int, y as int, x1 as int, py as int), color),
    {
        assert(framebuffer.buffer@ =~= paint(
            start,
            w,
            |a: int, b: int| rect(x as int, y as int, x1 as int, py as int)(a, b) || rect(x as int, py as int, x as int, py + 1)(a, b),
            color,
        ));
        for px in x..x1
            invariant
                framebuffer.wf(),
                framebuffer.same_frame(*old(framebuffer)),
                framebuffer.current_color == color,
                w == framebuffer.width,
                framebuffer.buffer@ == paint(
                    start,
                    w,
                    |a: int, b: int| rect(x as int, y as int, x1 as int, py as int)(a, b) || rect(x as int, py as int, px as int, py + 1)(a, b),
                    color,
                ),
        {
            framebuffer.point(px, py);
            proof {
                let r = |a: int, b: int| rect(x as int, y as int, x1 as int, py as int)(a, b) || rect(x as int, py as int, px as int, py + 1)(a, b);
                lemma_paint_union(start, w, r, single(px as int, py as int), color);
                assert(framebuffer.buffer@ =~= paint(
                    start,
                    w,
                    |a: int, b: int| rect(x as int, y as int, x1 as int, py as int)(a, b) || rect(x as int, py as int, px + 1, py + 1)(a, b),
                    color,
                ));
            }
        }
        assert(framebuffer.buffer@ =~= paint(start, w, rect(x as int, y as int, x1 as int, py + 1), color));
    }
}

/// Bit `col` of `bits` as the drawing loop tests it.
proof fn lemma_bit_test(bits: u8, col: u8)
    requires
        col < 8,
    ensures
        (bits & (1u8 << col) != 0) == bit_set(bits, col as int),
{
    assert((bits & (1u8 << col) != 0) == ((bits >> col) & 1u8 == 1u8)) by (bit_vector)
        requires
            col < 8,
    ;
}

/// Whether pixel `(a, b)` is covered by the glyph pixels of `g` that come
/// before `(row_end, col_end)` in row-major order.
pub open spec fn glyph_prefix_covers(
    g: Seq<u8>,
    x: int,
    y: int,
    s: int,
    row_end: int,
    col_end: int,
    a: int,
    b: int,
) -> bool {
    exists|row: int, col: int|
        (row < row_end || (row == row_end && col < col_end)) && #[trigger] glyph_dot(
            g,
            x,
            y,
            s,
            row,
            col,
            a,
            b,
        )
}

/// Whether some glyph pixel before `(row_end, col_end)` is set.
pub open spec fn glyph_prefix_ink(g: Seq<u8>, row_end: int, col_end: int) -> bool {
    exists|row: int, col: int|
        0 <= row < 8 && 0 <= col < 8 && (row < row_end || (row == row_end && col < col_end))
            && #[trigger] bit_set(g[row], col)
}

/// Draws glyph `glyph` with its top-left corner at `(x, y)`: each set
/// pixel becomes a `scale * scale` square of `color`.
pub fn draw_glyph(
    framebuffer: &mut Framebuffer,
    glyph: &[u8; 8],
    x: usize,
    y: usize,
    scale: usize,
    color: u32,
)
    requires
        old(framebuffer).wf(),
        x + 7 * scale <= usize::MAX,
        y + 7 * scale <= usize::MAX,
    ensures
        final(framebuffer).wf(),
        final(framebuffer).same_frame(*old(framebuffer)),
        final(framebuffer).canvas() == put_glyph(
            old(framebuffer).canvas(),
            old(framebuffer).width as nat,
            glyph@,
            x as int,
            y as int,
            scale as int,
            color,
        ),
{
    let ghost start = framebuffer.buffer@;
    let ghost pen0 = framebuffer.current_color;
    let ghost w = framebuffer.width as nat;
    let ghost g = glyph@;
    assert(g.len() == 8);
    assert(framebuffer.buffer@ =~= paint(
        start,
        w,
        |a: int, b: int| glyph_prefix_covers(g, x as int, y as int, scale as int, 0, 0, a, b),
        color,
    ));
    for row in 0..8usize
        invariant
            framebuffer.wf(),
            framebuffer.same_frame(*old(framebuffer)),
            w == framebuffer.width,
            g == glyph@,
            g.len() == 8,
            x + 7 * scale <= usize::MAX,
            y + 7 * scale <= usize::MAX,
            framebuffer.buffer@ == paint(
                start,
                w,
                |a: int, b: int| glyph_prefix_covers(g, x as int, y as int, scale as int, row as int, 0, a, b),
                color,
            ),
            framebuffer.current_color == if glyph_prefix_ink(g, row as int, 0) {
                color
            } else {
                pen0
            },
    {
        let bits = glyph[row];
        for col in 0..8u8
            invariant
                framebuffer.wf(),
                framebuffer.same_frame(*old(framebuffer)),
                w == framebuffer.width,
                g == glyph@,
                g.len() == 8,
                0 <= row < 8,
                bits == g[row as int],
                x + 7 * scale <= usize::MAX,
                y + 7 * scale <= usize::MAX,
                framebuffer.buffer@ == paint(
                    start,
                    w,
                    |a: int, b: int| glyph_prefix_covers(g, x as int, y as int, scale as int, row as int, col as int, a, b),
                    color,
                ),
                framebuffer.current_color == if glyph_prefix_ink(g, row as int, col as int) {
                    color
                } else {
                    pen0
                },
        {
            proof {
                lemma_bit_test(bits, col);
            }
            let ghost before = framebuffer.buffer@;
            if bits & (1u8 << col) != 0 {
                assert(col as usize * scale <= 7 * scale) by (nonlinear_arith)
                    requires
                        col < 8,
                ;
                assert(row * scale <= 7 * scale) by (nonlinear_arith)
                    requires
                        row < 8,
                ;
                let px = x + col as usize * scale;
                let py = y + row * scale;
                draw_scaled_pixel(framebuffer, px, py, scale, color);
                proof {
                    let r = |a: int, b: int| glyph_prefix_covers(g, x as int, y as int, scale as int, row as int, col as int, a, b);
                    let sq = rect(px as int, py as int, sat_add(px as int, scale as int), sat_add(py as int, scale as int));
                    lemma_paint_union(start, w, r, sq, color);
                    let nr = |a: int, b: int| glyph_prefix_covers(g, x as int, y as int, scale as int, row as int, col + 1, a, b);
                    assert forall|a: int, b: int| #[trigger] nr(a, b) == (r(a, b) || sq(a, b)) by {
                        if sq(a, b) {
                            assert(glyph_dot(g, x as int, y as int, scale as int, row as int, col as int, a, b));
                        }
                        if nr(a, b) {
                            let (rw, cl) = choose|rw: int, cl: int|
                                (rw < row || (rw == row && cl < col + 1)) && #[trigger] glyph_dot(
                                    g, x as int, y as int, scale as int, rw, cl, a, b);
                            if rw == row && cl == col {
                                assert(sq(a, b));
                            } else {
                                assert(r(a, b));
                            }
                        }
                    }
                    assert(framebuffer.buffer@ =~= paint(start, w, nr, color));
                    assert(glyph_prefix_ink(g, row as int, col + 1));
                }
            } else {
                proof {
                    let r = |a: int, b: int| glyph_prefix_covers(g, x as int, y as int, scale as int, row as int, col as int, a, b);
                    let nr = |a: int, b: int| glyph_prefix_covers(g, x as int, y as int, scale as int, row as int, col + 1, a, b);
                    assert forall|a: int, b: int| #[trigger] nr(a, b) == r(a, b) by {
                        if nr(a, b) {
                            let (rw, cl) = choose|rw: int, cl: int|
                                (rw < row || (rw == row && cl < col + 1)) && #[trigger] glyph_dot(
                                    g, x as int, y as int, scale as int, rw, cl, a, b);
                            assert(r(a, b));
                        }
                    }
                    assert(framebuffer.buffer@ =~= paint(start, w, nr, color));
                    assert(glyph_prefix_ink(g, row as int, col + 1) == glyph_prefix_ink(g, row as int, col as int));
                }
            }
        }
        proof {
            let r = |a: int, b: int| glyph_prefix_covers(g, x as int, y as int, scale as int, row as int, 8, a, b);
            let nr = |a: int, b: int| glyph_prefix_covers(g, x as int, y as int, scale as int, row + 1, 0, a, b);
            assert forall|a: int, b: int| #[trigger] nr(a, b) == r(a, b) by {
                if nr(a, b) {
                    let (rw, cl) = choose|rw: int, cl: int|
                        (rw < row + 1 || (rw == row + 1 && cl < 0)) && #[trigger] glyph_dot(
                            g, x as int, y as int, scale as int, rw, cl, a, b);
                    assert(r(a, b));
                }
                if r(a, b) {
                    let (rw, cl) = choose|rw: int, cl: int|
                        (rw < row || (rw == row && cl < 8)) && #[trigger] glyph_dot(
                            g, x as int, y as int, scale as int, rw, cl, a, b);
                    assert(nr(a, b));
                }
            }
            assert(framebuffer.buffer@ =~= paint(start, w, nr, color));
            assert(glyph_prefix_ink(g, row + 1, 0) == glyph_prefix_ink(g, row as int, 8));
        }
    }
    proof {
        let r = |a: int, b: int| glyph_prefix_covers(g, x as int, y as int, scale as int, 8, 0, a, b);
        let full = |a: int, b: int| glyph_covers(g, x as int, y as int, scale as int, a, b);
        assert forall|a: int, b: int| #[trigger] full(a, b) == r(a, b) by {
            if full(a, b) {
                let (rw, cl) = choose|rw: int, cl: int| #[trigger] glyph_dot(
                    g, x as int, y as int, scale as int, rw, cl, a, b);
                assert(r(a, b));
            }
        }
        assert(framebuffer.buffer@ =~= paint(start, w, full, color));
        assert(glyph_prefix_ink(g, 8, 0) == glyph_has_ink(g));
    }
}

/// Whether pixel `(a, b)` is covered by character `k` of `text` drawn at
/// `(x, y)` at scale `s`: characters are uppercased, stand `9 * s` pixels
/// apart, and only those of the basic font are drawn.
pub open spec fn char_covers(text: Seq<char>, k: int, x: int, y: int, s: int, a: int, b: int) -> bool {
    &&& 0 <= k < text.len()
    &&& (spec_ascii_upper(text[k]) as u32) < 128
    &&& glyph_covers(basic_glyph(spec_ascii_upper(text[k])), x + 9 * s * k, y, s, a, b)
}

/// Whether pixel `(a, b)` is covered by one of the first `n` characters of
/// `text`.
pub open spec fn text_prefix_covers(text: Seq<char>, n: int, x: int, y: int, s: int, a: int, b: int) -> bool {
    exists|k: int| k < n && #[trigger] char_covers(text, k, x, y, s, a, b)
}

/// Whether character `k` of `text` draws any pixel.
pub open spec fn char_ink(text: Seq<char>, k: int) -> bool {
    &&& 0 <= k < text.len()
    &&& (spec_ascii_upper(text[k]) as u32) < 128
    &&& glyph_has_ink(basic_glyph(spec_ascii_upper(text[k])))
}

/// Whether one of the first `n` characters of `text` draws any pixel.
pub open spec fn text_prefix_ink(text: Seq<char>, n: int) -> bool {
    exists|k: int| k < n && #[trigger] char_ink(text, k)
}

/// The canvas after drawing the first `n` characters of `text` at `(x, y)`
/// at scale `s` (`s > 0`).
pub open spec fn put_text_prefix(cv: Canvas, w: nat, x: int, y: int, text: Seq<char>, n: int, color: u32, s: int) -> Canvas {
    Canvas {
        pixels: paint(cv.pixels, w, |a: int, b: int| text_prefix_covers(text, n, x, y, s, a, b), color),
        pen: if text_prefix_ink(text, n) {
            color
        } else {
            cv.pen
        },
    }
}

/// The canvas after drawing `text` with its top-left corner at `(x, y)` at
/// scale `s` in `color`: nothing at scale 0; otherwise each character of
/// the basic font, uppercased, as its 8x8 glyph with `s * s` squares for
/// pixels, the characters `9 * s` pixels apart. The pen becomes `color` if
/// any pixel was drawn.
pub open spec fn put_text(cv: Canvas, w: nat, x: int, y: int, text: Seq<char>, color: u32, s: int) -> Canvas {
    if s == 0 {
        cv
    } else {
        put_text_prefix(cv, w, x, y, text, text.len() as int, color, s)
    }
}

/// Whether drawing `text` at `(x, y)` at scale `scale` keeps every
/// coordinate it computes within `usize`.
pub open spec fn text_fits(x: int, y: int, text: Seq<char>, scale: int) -> bool {
    text.len() == 0 || (x + 9 * scale * text.len() <= usize::MAX && y + 7 * scale <= usize::MAX)
}

/// Draws `text` with its top-left corner at `(x, y)`, in `color`, each
/// font pixel as a `scale * scale` square; lowercase ASCII letters are
/// drawn uppercase and characters outside the basic font leave a gap.
pub fn draw_text(framebuffer: &mut Framebuffer, x: usize, y: usize, text: &str, color: u32, scale: usize)
    requires
        old(framebuffer).wf(),
        text_fits(x as int, y as int, text@, scale as int),
    ensures
        final(framebuffer).wf(),
        final(framebuffer).same_frame(*old(framebuffer)),
        final(framebuffer).canvas() == put_text(
            old(framebuffer).canvas(),
            old(framebuffer).width as nat,
            x as int,
            y as int,
            text@,
            color,
            scale as int,
        ),
{
    if scale == 0 {
        return;
    }
    let ghost cv0 = framebuffer.canvas();
    let ghost w = framebuffer.width as nat;
    let ghost t = text@;
    let n = text.unicode_len();
    let mut cursor_x = x;
    assert(framebuffer.canvas() == put_text_prefix(cv0, w, x as int, y as int, t, 0, color, scale as int)) by {
        assert(framebuffer.buffer@ =~= paint(
            cv0.pixels,
            w,
            |a: int, b: int| text_prefix_covers(t, 0, x as int, y as int, scale as int, a, b),
            color,
        ));
    }
    for k in 0..n
        invariant
            framebuffer.wf(),
            framebuffer.same_frame(*old(framebuffer)),
            w == framebuffer.width,
            t == text@,
            n == t.len(),
            scale > 0,
            text_fits(x as int, y as int, t, scale as int),
            cursor_x == x + 9 * scale * k,
            framebuffer.canvas() == put_text_prefix(cv0, w, x as int, y as int, t, k as int, color, scale as int),
    {
        assert(9 * scale * k + 9 * scale == 9 * scale * (k + 1)) by (nonlinear_arith);
        assert(9 * scale * (k + 1) <= 9 * scale * n) by (nonlinear_arith)
            requires
                k < n,
        ;
        let c = ascii_upper(text.get_char(k));
        let ghost prev = framebuffer.canvas();
        let found = basic_font_glyph(c);
        let ghost cov = |a: int, b: int| text_prefix_covers(t, k as int, x as int, y as int, scale as int, a, b);
        let ghost ncov = |a: int, b: int| text_prefix_covers(t, k + 1, x as int, y as int, scale as int, a, b);
        match found {
            Some(glyph) => {
                draw_glyph(framebuffer, &glyph, cursor_x, y, scale, color);
                proof {
                    let gc = |a: int, b: int| glyph_covers(glyph@, cursor_x as int, y as int, scale as int, a, b);
                    lemma_paint_union(cv0.pixels, w, cov, gc, color);
                    assert forall|a: int, b: int| #[trigger] ncov(a, b) == (cov(a, b) || gc(a, b)) by {
                        if gc(a, b) {
                            assert(char_covers(t, k as int, x as int, y as int, scale as int, a, b));
                        }
                        if ncov(a, b) {
                            let j = choose|j: int| j < k + 1 && #[trigger] char_covers(t, j, x as int, y as int, scale as int, a, b);
                            if j < k {
                                assert(cov(a, b));
                            }
                        }
                    }
                    assert(framebuffer.buffer@ =~= paint(cv0.pixels, w, ncov, color));
                    if glyph_has_ink(glyph@) {
                        assert(char_ink(t, k as int));
                    }
                    if text_prefix_ink(t, k + 1) {
                        let j = choose|j: int| j < k + 1 && #[trigger] char_ink(t, j);
                        if j < k {
                            assert(text_prefix_ink(t, k as int));
                        }
                    }
                }
            },
            None => {
                proof {
                    assert forall|a: int, b: int| #[trigger] ncov(a, b) == cov(a, b) by {
                        if ncov(a, b) {
                            let j = choose|j: int| j < k + 1 && #[trigger] char_covers(t, j, x as int, y as int, scale as int, a, b);
                            assert(j != k);
                            assert(cov(a, b));
                        }
                    }
                    assert(framebuffer.buffer@ =~= paint(cv0.pixels, w, ncov, color));
                    if text_prefix_ink(t, k + 1) {
                        let j = choose|j: int| j < k + 1 && #[trigger] char_ink(t, j);
                        assert(j != k);
                        assert(text_prefix_ink(t, k as int));
                    }
                }
            },
        }
        cursor_x = cursor_x + 9 * scale;
    }
}

/// Text of moderate length drawn near the window at a small scale fits.
pub proof fn lemma_small_text_fits(x: int, y: int, t: Seq<char>, s: int)
    requires
        0 <= x <= 10000,
        0 <= y <= 10000,
        0 <= s <= 8,
        t.len() <= 1000,
    ensures
        text_fits(x, y, t, s),
{
    assert(9 * s * t.len() <= 72000) by (nonlinear_arith)
        requires
            0 <= s <= 8,
            t.len() <= 1000,
    ;
}

/// Text stays in its box: a pixel drawn for `text` at `(x, y)` at scale
/// `s` lies at most `9 * s` pixels per character to the right of `x` and
/// less than `8 * s` pixels below `y`.
pub proof fn lemma_text_stays_in_box(text: Seq<char>, x: int, y: int, s: int, a: int, b: int)
    requires
        s > 0,
        text_prefix_covers(text, text.len() as int, x, y, s, a, b),
    ensures
        x <= a < x + 9 * s * text.len(),
        y <= b < y + 8 * s,
{
    let k = choose|k: int| k < text.len() && #[trigger] char_covers(text, k, x, y, s, a, b);
    let g = basic_glyph(spec_ascii_upper(text[k]));
    let gx = x + 9 * s * k;
    let (row, col) = choose|row: int, col: int| #[trigger] glyph_dot(g, gx, y, s, row, col, a, b);
    assert(0 <= col * s && col * s + s <= 8 * s) by (nonlinear_arith)
        requires
            0 <= col < 8,
            s > 0,
    ;
    assert(0 <= row * s && row * s + s <= 8 * s) by (nonlinear_arith)
        requires
            0 <= row < 8,
            s > 0,
    ;
    assert(0 <= 9 * s * k && 9 * s * k + 9 * s <= 9 * s * text.len()) by (nonlinear_arith)
        requires
            0 <= k < text.len(),
            s > 0,
    ;
}

/// Each pixel drawn for character `k` of a text lies in that character's
/// box: `8 * s` pixels square, `9 * s * k` pixels right of the text's
/// start.
pub proof fn lemma_char_in_its_box(text: Seq<char>, k: int, x: int, y: int, s: int, a: int, b: int)
    requires
        char_covers(text, k, x, y, s, a, b),
    ensures
        x + 9 * s * k <= a < x + 9 * s * k + 8 * s,
        y <= b < y + 8 * s,
{
    let g = basic_glyph(spec_ascii_upper(text[k]));
    let gx = x + 9 * s * k;
    let (row, col) = choose|row: int, col: int| #[trigger] glyph_dot(g, gx, y, s, row, col, a, b);
    assert(s > 0);
    assert(0 <= col * s && col * s + s <= 8 * s) by (nonlinear_arith)
        requires
            0 <= col < 8,
            s > 0,
    ;
    assert(0 <= row * s && row * s + s <= 8 * s) by (nonlinear_arith)
        requires
            0 <= row < 8,
            s > 0,
    ;
}

/// Uppercasing twice is uppercasing once.
pub proof fn lemma_ascii_upper_idempotent(c: char)
    ensures
        spec_ascii_upper(spec_ascii_upper(c)) == spec_ascii_upper(c),
{
}

/// A text draws the same as its ASCII-uppercased form.
pub proof fn lemma_text_uppercase_invariant(cv: Canvas, w: nat, x: int, y: int, text: Seq<char>, color: u32, s: int)
    ensures
        put_text(cv, w, x, y, text, color, s) == put_text(
            cv,
            w,
            x,
            y,
            text.map_values(|c: char| spec_ascii_upper(c)),
            color,
            s,
        ),
{
    let up = text.map_values(|c: char| spec_ascii_upper(c));
    if s != 0 {
        let n = text.len() as int;
        assert forall|k: int| 0 <= k < n implies spec_ascii_upper(#[trigger] up[k]) == spec_ascii_upper(text[k]) by {
            lemma_ascii_upper_idempotent(text[k]);
        }
        assert forall|a: int, b: int| #[trigger] text_prefix_covers(text, n, x, y, s, a, b) == text_prefix_covers(up, n, x, y, s, a, b) by {
            if text_prefix_covers(text, n, x, y, s, a, b) {
                let k = choose|k: int| k < n && #[trigger] char_covers(text, k, x, y, s, a, b);
                assert(char_covers(up, k, x, y, s, a, b));
            }
            if text_prefix_covers(up, n, x, y, s, a, b) {
                let k = choose|k: int| k < n && #[trigger] char_covers(up, k, x, y, s, a, b);
                assert(char_covers(text, k, x, y, s, a, b));
            }
        }
        if text_prefix_ink(text, n) {
            let k = choose|k: int| k < n && #[trigger] char_ink(text, k);
            assert(char_ink(up, k));
        }
        if text_prefix_ink(up, n) {
            let k = choose|k: int| k < n && #[trigger] char_ink(up, k);
            assert(char_ink(text, k));
        }
        assert(paint(cv.pixels, w, |a: int, b: int| text_prefix_covers(text, n, x, y, s, a, b), color)
            =~= paint(cv.pixels, w, |a: int, b: int| text_prefix_covers(up, n, x, y, s, a, b), color));
    }
}

/// Drawing two texts one after the other, the second `9 * s` pixels per
/// character of the first further right, draws their concatenation.
pub proof fn lemma_text_concat(
    cv: Canvas,
    w: nat,
    x: int,
    y: int,
    first: Seq<char>,
    second: Seq<char>,
    color: u32,
    s: int,
)
    ensures
        put_text(cv, w, x, y, first + second, color, s) == put_text(
            put_text(cv, w, x, y, first, color, s),
            w,
            x + 9 * s * first.len(),
            y,
            second,
            color,
            s,
        ),
{
    if s != 0 {
        let t = first + second;
        let n1 = first.len() as int;
        let n2 = second.len() as int;
        let x2 = x + 9 * s * n1;
        assert forall|a: int, b: int| #[trigger] text_prefix_covers(t, n1 + n2, x, y, s, a, b)
            == (text_prefix_covers(first, n1, x, y, s, a, b) || text_prefix_covers(second, n2, x2, y, s, a, b)) by {
            if text_prefix_covers(t, n1 + n2, x, y, s, a, b) {
                let k = choose|k: int| k < n1 + n2 && #[trigger] char_covers(t, k, x, y, s, a, b);
                if k < n1 {
                    assert(char_covers(first, k, x, y, s, a, b));
                } else {
                    assert(t[k] == second[k - n1]);
                    assert(x + 9 * s * k == x2 + 9 * s * (k - n1)) by (nonlinear_arith)
                        requires
                            x2 == x + 9 * s * n1,
                    ;
                    assert(char_covers(second, k - n1, x2, y, s, a, b));
                }
            }
            if text_prefix_covers(first, n1, x, y, s, a, b) {
                let k = choose|k: int| k < n1 && #[trigger] char_covers(first, k, x, y, s, a, b);
                assert(char_covers(t, k, x, y, s, a, b));
            }
            if text_prefix_covers(second, n2, x2, y, s, a, b) {
                let k = choose|k: int| k < n2 && #[trigger] char_covers(second, k, x2, y, s, a, b);
                assert(t[n1 + k] == second[k]);
                assert(x + 9 * s * (n1 + k) == x2 + 9 * s * k) by (nonlinear_arith)
                    requires
                        x2 == x + 9 * s * n1,
                ;
                assert(char_covers(t, n1 + k, x, y, s, a, b));
            }
        }
        if text_prefix_ink(t, n1 + n2) {
            let k = choose|k: int| k < n1 + n2 && #[trigger] char_ink(t, k);
            if k < n1 {
                assert(char_ink(first, k));
            } else {
                assert(char_ink(second, k - n1));
            }
        }
        if text_prefix_ink(first, n1) {
            let k = choose|k: int| k < n1 && #[trigger] char_ink(first, k);
            assert(char_ink(t, k));
        }
        if text_prefix_ink(second, n2) {
            let k = choose|k: int| k < n2 && #[trigger] char_ink(second, k);
            assert(char_ink(t, n1 + k));
        }
        let r1 = |a: int, b: int| text_prefix_covers(first, n1, x, y, s, a, b);
        let r2 = |a: int, b: int| text_prefix_covers(second, n2, x2, y, s, a, b);
        lemma_paint_union(cv.pixels, w, r1, r2, color);
        assert(paint(cv.pixels, w, |a: int, b: int| text_prefix_covers(t, n1 + n2, x, y, s, a, b), color)
            =~= paint(cv.pixels, w, |a: int, b: int| r1(a, b) || r2(a, b), color));
    }
}

/// A character outside the basic font draws nothing and leaves the pen as
/// it is; by `lemma_text_concat`, the next character is still drawn
/// `9 * s` pixels further right.
pub proof fn lemma_unknown_char_draws_nothing(cv: Canvas, w: nat, x: int, y: int, c: char, color: u32, s: int)
    requires
        (spec_ascii_upper(c) as u32) >= 128,
    ensures
        put_text(cv, w, x, y, seq![c], color, s) == cv,
{
    if s != 0 {
        let t = seq![c];
        assert forall|a: int, b: int| !#[trigger] text_prefix_covers(t, 1, x, y, s, a, b) by {
            if text_prefix_covers(t, 1, x, y, s, a, b) {
                let k = choose|k: int| k < 1 && #[trigger] char_covers(t, k, x, y, s, a, b);
                assert(k == 0);
            }
        }
        if text_prefix_ink(t, 1) {
            let k = choose|k: int| k < 1 && #[trigger] char_ink(t, k);
            assert(k == 0);
        }
        assert(paint(cv.pixels, w, |a: int, b: int| text_prefix_covers(t, 1, x, y, s, a, b), color) =~= cv.pixels);
    }
}

/// Uppercasing maps each ASCII lowercase letter to the capital 32 code
/// points below it, and leaves every other character as it is.
pub proof fn lemma_ascii_upper_letters(c: char)
    ensures
        'a' <= c <= 'z' ==> 'A' <= spec_ascii_upper(c) <= 'Z' && spec_ascii_upper(c) as u32 + 32
            == c as u32,
        !('a' <= c <= 'z') ==> spec_ascii_upper(c) == c,
{
}

} // verus!
