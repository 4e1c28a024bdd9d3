use vstd::prelude::*;
use vstd::arithmetic::div_mod::{
    lemma_fundamental_div_mod, lemma_fundamental_div_mod_converse, lemma_mod_bound,
};

verus! {

/// A set of pixel coordinates `(x, y)`.
pub type Region = spec_fn(int, int) -> bool;

/// The pixels of a row-major buffer `width` pixels wide, after every pixel
/// whose coordinates lie in `region` has been set to `color`.
///
/// Pixel `i` of the buffer has coordinates `(i % width, i / width)`, so a
/// region may reach beyond the buffer: only the part inside is painted.
pub open spec fn paint(pixels: Seq<u32>, width: nat, region: Region, color: u32) -> Seq<u32> {
    Seq::new(
        pixels.len(),
        |i: int|
            if region(i % (width as int), i / (width as int)) {
                color
            } else {
                pixels[i]
            },
    )
}

/// The single pixel `(x, y)`.
pub open spec fn single(x: int, y: int) -> Region {
    |a: int, b: int| a == x && b == y
}

/// The rectangle of pixels with `x0 <= x < x1` and `y0 <= y < y1`.
pub open spec fn rect(x0: int, y0: int, x1: int, y1: int) -> Region {
    |a: int, b: int| x0 <= a < x1 && y0 <= b < y1
}

/// `a + b`, capped at `usize::MAX` as `usize::saturating_add` does.
pub open spec fn sat_add(a: int, b: int) -> int {
    if a + b > usize::MAX {
        usize::MAX as int
    } else {
        a + b
    }
}

/// What a drawing can observe of a frame buffer: its pixels and the colour
/// that the next plotted point gets.
pub struct Canvas {
    pub pixels: Seq<u32>,
    pub pen: u32,
}

/// A frame buffer of `width * height` pixels in row-major order, with a
/// current drawing colour and a background colour used by `clear`.
pub struct Framebuffer {
    pub width: usize,
    pub height: usize,
    pub buffer: Vec<u32>,
    pub background_color: u32,
    pub current_color: u32,
}

impl Framebuffer {
    /// The buffer holds exactly one pixel per coordinate.
    pub open spec fn wf(self) -> bool {
        self.buffer@.len() == self.width * self.height
    }

    /// The pixels and the pen.
    pub open spec fn canvas(self) -> Canvas {
        Canvas { pixels: self.buffer@, pen: self.current_color }
    }

    /// Whether `self` and `other` have the same size and background.
    pub open spec fn same_frame(self, other: Framebuffer) -> bool {
        &&& self.width == other.width
        &&& self.height == other.height
        &&& self.background_color == other.background_color
    }

    /// A black frame of `width * height` pixels whose pen is white.
    pub fn new(width: usize, height: usize) -> (fb: Framebuffer)
        requires
            width * height <= usize::MAX,
        ensures
            fb.wf(),
            fb.width == width,
            fb.height == height,
            fb.buffer@ == Seq::new((width * height) as nat, |i: int| 0u32),
            fb.background_color == 0,
            fb.current_color == 0xFFFFFF,
    {
        let n = width * height;
        let mut buffer: Vec<u32> = Vec::new();
        while buffer.len() < n
            invariant
                buffer.len() <= n,
                forall|i: int| 0 <= i < buffer.len() ==> buffer@[i] == 0u32,
            decreases n - buffer.len(),
        {
            buffer.push(0);
        }
        assert(buffer@ =~= Seq::new((width * height) as nat, |i: int| 0u32));
        Framebuffer { width, height, buffer, background_color: 0, current_color: 0xFFFFFF }
    }

    /// Sets every pixel to the background colour.
    pub fn clear(&mut self)
        requires
            old(self).wf(),
        ensures
            final(self).wf(),
            final(self).same_frame(*old(self)),
            final(self).current_color == old(self).current_color,
            final(self).buffer@ == Seq::new(
                old(self).buffer@.len(),
                |i: int| old(self).background_color,
            ),
    {
        let n = self.buffer.len();
        let bg = self.background_color;
        for i in 0..n
            invariant
                n == self.buffer@.len(),
                bg == self.background_color,
                self.wf(),
                self.same_frame(*old(self)),
                self.current_color == old(self).current_color,
                forall|j: int| 0 <= j < i ==> self.buffer@[j] == bg,
        {
            self.buffer.set(i, bg);
        }
        assert(self.buffer@ =~= Seq::new(old(self).buffer@.len(), |i: int| bg));
    }

    /// Sets the colour of the points plotted from now on.
    pub fn set_current_color(&mut self, color: u32)
        ensures
            final(self).width == old(self).width,
            final(self).height == old(self).height,
            final(self).buffer@ == old(self).buffer@,
            final(self).background_color == old(self).background_color,
            final(self).current_color == color,
    {
        self.current_color = color;
    }

    /// Sets pixel `(x, y)` to the current colour; a point outside the frame
    /// is ignored.
    pub fn point(&mut self, x: usize, y: usize)
        requires
            old(self).wf(),
        ensures
            final(self).wf(),
            final(self).same_frame(*old(self)),
            final(self).current_color == old(self).current_color,
            final(self).buffer@ == paint(
                old(self).buffer@,
                old(self).width as nat,
                single(x as int, y as int),
                old(self).current_color,
            ),
    {
        proof {
            lemma_paint_point(
                self.buffer@,
                self.width as nat,
                self.height as nat,
                x as int,
                y as int,
                self.current_color,
            );
        }
        let n = self.buffer.len();
        if x < self.width && y < self.height {
            proof {
                lemma_index_in_frame(x as int, y as int, self.width as int, self.height as int);
                assert(y * self.width <= y * self.width + x < n);
            }
            let idx = y * self.width + x;
            let c = self.current_color;
            self.buffer.set(idx, c);
        }
    }
}

/// A pixel inside a `w * h` frame has an index inside the buffer.
pub proof fn lemma_index_in_frame(x: int, y: int, w: int, h: int)
    requires
        0 <= x < w,
        0 <= y < h,
    ensures
        0 <= y * w + x < w * h,
{
    assert(0 <= y * w + x < w * h) by (nonlinear_arith)
        requires
            0 <= x < w,
            0 <= y < h,
    ;
}

/// Painting one pixel inside the frame updates exactly its index; painting
/// one outside changes nothing.
pub proof fn lemma_paint_point(pixels: Seq<u32>, w: nat, h: nat, x: int, y: int, c: u32)
    requires
        pixels.len() == w * h,
    ensures
        (0 <= x < w && 0 <= y < h) ==> paint(pixels, w, single(x, y), c) == pixels.update(
            y * w + x,
            c,
        ),
        !(0 <= x < w && 0 <= y < h) ==> paint(pixels, w, single(x, y), c) == pixels,
{
    let p = paint(pixels, w, single(x, y), c);
    if w > 0 {
        assert forall|i: int| 0 <= i < pixels.len() implies ({
            &&& 0 <= #[trigger] (i % (w as int)) < w
            &&& 0 <= i / (w as int) < h
            &&& i == (i / (w as int)) * w + i % (w as int)
        }) by {
            lemma_mod_bound(i, w as int);
            lemma_fundamental_div_mod(i, w as int);
            let q = i / (w as int);
            let r = i % (w as int);
            assert(q * w == w * q) by (nonlinear_arith);
            assert(0 <= q < h) by (nonlinear_arith)
                requires
                    i == q * w + r,
                    0 <= r < w,
                    0 <= i < w * h,
                    w > 0,
            ;
        }
    }
    if 0 <= x < w && 0 <= y < h {
        lemma_index_in_frame(x, y, w as int, h as int);
        assert forall|i: int| 0 <= i < pixels.len() implies #[trigger] p[i] == pixels.update(
            y * w + x,
            c,
        )[i] by {
            if i == y * w + x {
                lemma_fundamental_div_mod_converse(i, w as int, y, x);
            } else {
                assert(i == (i / (w as int)) * w + i % (w as int));
            }
        }
        assert(p =~= pixels.update(y * w + x, c));
    } else {
        assert forall|i: int| 0 <= i < pixels.len() implies #[trigger] p[i] == pixels[i] by {
            assert(0 <= i % (w as int) < w);
        }
        assert(p =~= pixels);
    }
}

/// Painting a region and then another with the same colour paints their
/// union.
pub proof fn lemma_paint_union(pixels: Seq<u32>, w: nat, r1: Region, r2: Region, c: u32)
    ensures
        paint(paint(pixels, w, r1, c), w, r2, c) == paint(
            pixels,
            w,
            |a: int, b: int| r1(a, b) || r2(a, b),
            c,
        ),
{
    assert(paint(paint(pixels, w, r1, c), w, r2, c) =~= paint(
        pixels,
        w,
        |a: int, b: int| r1(a, b) || r2(a, b),
        c,
    ));
}

/// Regions that agree on every pixel inside a `w * h` frame paint alike.
pub proof fn lemma_paint_same_inside(
    pixels: Seq<u32>,
    w: nat,
    h: nat,
    r1: Region,
    r2: Region,
    c: u32,
)
    requires
        pixels.len() == w * h,
        forall|a: int, b: int| 0 <= a < w && 0 <= b < h ==> #[trigger] r1(a, b) == r2(a, b),
    ensures
        paint(pixels, w, r1, c) == paint(pixels, w, r2, c),
{
    if w > 0 {
        assert forall|i: int| 0 <= i < pixels.len() implies 0 <= #[trigger] (i % (w as int)) < w
            && 0 <= i / (w as int) < h by {
            lemma_mod_bound(i, w as int);
            lemma_fundamental_div_mod(i, w as int);
            let q = i / (w as int);
            let r = i % (w as int);
            assert(0 <= q < h) by (nonlinear_arith)
                requires
                    i == w * q + r,
                    0 <= r < w,
                    0 <= i < w * h,
                    w > 0,
            ;
        }
    }
    assert(paint(pixels, w, r1, c) =~= paint(pixels, w, r2, c));
}

/// Painting a region a second time with the same colour changes nothing.
pub proof fn lemma_paint_idempotent(pixels: Seq<u32>, w: nat, region: Region, c: u32)
    ensures
        paint(paint(pixels, w, region, c), w, region, c) == paint(pixels, w, region, c),
{
    assert(paint(paint(pixels, w, region, c), w, region, c) =~= paint(pixels, w, region, c));
}

/// Painting leaves the number of pixels as it is, and leaves every pixel
/// outside the region as it was.
pub proof fn lemma_paint_outside(pixels: Seq<u32>, w: nat, region: Region, c: u32, i: int)
    requires
        0 <= i < pixels.len(),
        w > 0,
        !region(i % (w as int), i / (w as int)),
    ensures
        paint(pixels, w, region, c).len() == pixels.len(),
        paint(pixels, w, region, c)[i] == pixels[i],
{
}

/// Pixel `(a, b)` of a `w * h` frame after painting: the colour if the
/// region holds `(a, b)`, the old pixel otherwise.
pub proof fn lemma_paint_at(pixels: Seq<u32>, w: nat, h: nat, region: Region, c: u32, a: int, b: int)
    requires
        pixels.len() == w * h,
        0 <= a < w,
        0 <= b < h,
    ensures
        paint(pixels, w, region, c).len() == w * h,
        0 <= b * w + a < w * h,
        paint(pixels, w, region, c)[b * w + a] == if region(a, b) {
            c
        } else {
            pixels[b * w + a]
        },
{
    lemma_index_in_frame(a, b, w as int, h as int);
    lemma_fundamental_div_mod_converse(b * w + a, w as int, b, a);
}

} // verus!
