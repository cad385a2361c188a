//! A canvas-sized RGBA buffer the UI paints into: fills, one-pixel frames, glyphs, text, and
//! the selection marker, all clipped to the buffer. A painter draws through an origin, so a
//! region can be painted in its own coordinates and land where the origin puts it.
//!
//! What a paint does is stated once, as an `Ink`: the pixels it covers and the value they
//! take. A buffer after a paint is `apply_ink` of the buffer before it; every pixel the ink
//! covers holds the ink's value, every other pixel keeps its bytes (`lemma_paint_pixel`).

use vstd::prelude::*;
use crate::font::{GLYPH_HEIGHT, GLYPH_WIDTH, glyph, ink, spec_glyph, spec_ink};
use crate::layout::{CANVAS_HEIGHT, CANVAS_WIDTH, Rect};

verus! {

/// An RGB colour.
pub type Rgb = (u8, u8, u8);
/// The four bytes of a pixel.
pub type Rgba = (u8, u8, u8, u8);

/// A colour painted opaque.
pub open spec fn opaque(color: Rgb) -> Rgba {
    (color.0, color.1, color.2, 255u8)
}

/// A transparent pixel: what nothing painted, or an erase, leaves.
pub open spec fn clear_pixel() -> Rgba {
    (0u8, 0u8, 0u8, 0u8)
}

/// Byte `c` of a pixel value.
pub open spec fn channel(v: Rgba, c: int) -> u8 {
    if c == 0 {
        v.0
    } else if c == 1 {
        v.1
    } else if c == 2 {
        v.2
    } else {
        v.3
    }
}

/// A buffer `width` pixels wide with the pixels that `covers` gives set to `v`: byte `i`
/// belongs to pixel `i / 4`, at column `(i / 4) % width` and row `(i / 4) / width`.
pub open spec fn paint(buf: Seq<u8>, width: int, covers: spec_fn(int, int) -> bool, v: Rgba) -> Seq<
    u8,
> {
    Seq::new(
        buf.len(),
        |i: int|
            if covers((i / 4) % width, (i / 4) / width) {
                channel(v, i % 4)
            } else {
                buf[i]
            },
    )
}

/// The index of byte `c` of the pixel at `(x, y)`.
pub open spec fn byte_at(width: int, x: int, y: int, c: int) -> int {
    (y * width + x) * 4 + c
}

/// Every byte of a buffer of `width * height` pixels belongs to one pixel inside it.
pub proof fn lemma_pixel_of(i: int, width: int, height: int)
    requires
        width > 0,
        height >= 0,
        0 <= i < width * height * 4,
    ensures
        0 <= (i / 4) % width < width,
        0 <= (i / 4) / width < height,
        0 <= i % 4 < 4,
        i == byte_at(width, (i / 4) % width, (i / 4) / width, i % 4),
{
    let p = i / 4;
    vstd::arithmetic::div_mod::lemma_fundamental_div_mod(i, 4);
    vstd::arithmetic::div_mod::lemma_fundamental_div_mod(p, width);
    assert(0 <= p % width < width) by {
        vstd::arithmetic::div_mod::lemma_mod_pos_bound(p, width);
    }
    assert(p < width * height) by (nonlinear_arith)
        requires
            i == 4 * p + i % 4,
            0 <= i % 4 < 4,
            i < width * height * 4,
    ;
    assert(0 <= p / width < height) by (nonlinear_arith)
        requires
            p == width * (p / width) + p % width,
            0 <= p % width < width,
            0 <= p < width * height,
            width > 0,
    ;
    assert(i == byte_at(width, p % width, p / width, i % 4)) by (nonlinear_arith)
        requires
            p == width * (p / width) + p % width,
            i == 4 * p + i % 4,
    ;
}

/// The bytes of a pixel inside a buffer lie inside it and name that pixel back.
pub proof fn lemma_byte_at(x: int, y: int, c: int, width: int, height: int)
    requires
        0 <= x < width,
        0 <= y < height,
        0 <= c < 4,
    ensures
        0 <= byte_at(width, x, y, c) < width * height * 4,
        byte_at(width, x, y, c) / 4 == y * width + x,
        byte_at(width, x, y, c) % 4 == c,
        (byte_at(width, x, y, c) / 4) % width == x,
        (byte_at(width, x, y, c) / 4) / width == y,
{
    let i = byte_at(width, x, y, c);
    let p = y * width + x;
    assert(0 <= p < width * height) by (nonlinear_arith)
        requires
            0 <= x < width,
            0 <= y < height,
            p == y * width + x,
    ;
    assert(0 <= i < width * height * 4) by (nonlinear_arith)
        requires
            0 <= p < width * height,
            i == p * 4 + c,
            0 <= c < 4,
    ;
    vstd::arithmetic::div_mod::lemma_fundamental_div_mod_converse(i, 4, p, c);
    vstd::arithmetic::div_mod::lemma_fundamental_div_mod_converse(p, width, y, x);
}

/// What a paint leaves at a pixel: the ink's value where it covers the pixel, the old bytes
/// elsewhere.
pub proof fn lemma_paint_pixel(
    buf: Seq<u8>,
    width: int,
    height: int,
    covers: spec_fn(int, int) -> bool,
    v: Rgba,
    x: int,
    y: int,
    c: int,
)
    requires
        buf.len() == width * height * 4,
        0 <= x < width,
        0 <= y < height,
        0 <= c < 4,
    ensures
        paint(buf, width, covers, v)[byte_at(width, x, y, c)] == if covers(x, y) {
            channel(v, c)
        } else {
            buf[byte_at(width, x, y, c)]
        },
{
    lemma_byte_at(x, y, c, width, height);
}

/// Two paints of one value are one paint of what either covers.
pub proof fn lemma_paint_compose(
    buf: Seq<u8>,
    width: int,
    first: spec_fn(int, int) -> bool,
    second: spec_fn(int, int) -> bool,
    v: Rgba,
)
    ensures
        paint(paint(buf, width, first, v), width, second, v) == paint(
            buf,
            width,
            |x: int, y: int| first(x, y) || second(x, y),
            v,
        ),
{
    assert(paint(paint(buf, width, first, v), width, second, v) =~= paint(
        buf,
        width,
        |x: int, y: int| first(x, y) || second(x, y),
        v,
    ));
}

/// Paints whose coverings agree on every pixel of the buffer are the same paint.
pub proof fn lemma_paint_same(
    buf: Seq<u8>,
    width: int,
    height: int,
    first: spec_fn(int, int) -> bool,
    second: spec_fn(int, int) -> bool,
    v: Rgba,
)
    requires
        width > 0,
        height >= 0,
        buf.len() == width * height * 4,
        forall|x: int, y: int| 0 <= x < width && 0 <= y < height ==> #[trigger] first(x, y) == second(x, y),
    ensures
        paint(buf, width, first, v) == paint(buf, width, second, v),
{
    assert forall|i: int| 0 <= i < buf.len() implies paint(buf, width, first, v)[i] == paint(
        buf,
        width,
        second,
        v,
    )[i] by {
        lemma_pixel_of(i, width, height);
    }
    assert(paint(buf, width, first, v) =~= paint(buf, width, second, v));
}

/// The marker's row `r` is `[1, 2, 3, 2, 1][r]` pixels wide.
pub open spec fn marker_width(r: int) -> int {
    if r <= 2 {
        r + 1
    } else {
        5 - r
    }
}

/// Whether text at `(x, y)` inks the pixel `(px, py)`: one 6x8 cell per character, a space
/// inks nothing, any other character its glyph in its cell's top-left 5x7.
pub open spec fn text_covers(x: int, y: int, text: Seq<char>, px: int, py: int) -> bool {
    let d = px - x;
    &&& 0 <= d
    &&& d / 6 < text.len()
    &&& text[d / 6] != ' '
    &&& spec_ink(spec_glyph(text[d / 6]), d % 6, py - y)
}

/// One paint, in the painter's coordinates (before the origin moves it).
pub enum Ink {
    /// One opaque pixel.
    Pixel { x: int, y: int, color: Rgb },
    /// An opaque rectangle.
    Fill { rect: Rect, color: Rgb },
    /// A rectangle made transparent.
    Erase { rect: Rect },
    /// A one-pixel frame just inside a rectangle; an empty rectangle has none.
    Stroke { rect: Rect, color: Rgb },
    /// One glyph with its top-left at `(x, y)`.
    Glyph { c: char, x: int, y: int, color: Rgb },
    /// Text from `(x, y)`, one cell per character.
    Text { x: int, y: int, text: Seq<char>, color: Rgb },
    /// The selection marker: a 3x5 triangle pointing right, top-left at `(x, y)`.
    Marker { x: int, y: int, color: Rgb },
}

/// Whether a paint covers the pixel `(px, py)` of the painter's coordinates.
pub open spec fn ink_covers(op: Ink, px: int, py: int) -> bool {
    match op {
        Ink::Pixel { x, y, .. } => px == x && py == y,
        Ink::Fill { rect, .. } => rect.spec_contains(px, py),
        Ink::Erase { rect } => rect.spec_contains(px, py),
        Ink::Stroke { rect, .. } => {
            &&& rect.w > 0
            &&& rect.h > 0
            &&& rect.spec_contains(px, py)
            &&& (px == rect.x || px == rect.spec_right() - 1 || py == rect.y || py
                == rect.spec_bottom() - 1)
        },
        Ink::Glyph { c, x, y, .. } => spec_ink(spec_glyph(c), px - x, py - y),
        Ink::Text { x, y, text, .. } => text_covers(x, y, text, px, py),
        Ink::Marker { x, y, .. } => {
            &&& 0 <= py - y < 5
            &&& 0 <= px - x < marker_width(py - y)
        },
    }
}

/// The value a paint leaves in the pixels it covers.
pub open spec fn ink_value(op: Ink) -> Rgba {
    match op {
        Ink::Pixel { color, .. } => opaque(color),
        Ink::Fill { color, .. } => opaque(color),
        Ink::Erase { .. } => clear_pixel(),
        Ink::Stroke { color, .. } => opaque(color),
        Ink::Glyph { color, .. } => opaque(color),
        Ink::Text { color, .. } => opaque(color),
        Ink::Marker { color, .. } => opaque(color),
    }
}

/// A buffer after a paint through `origin`.
pub open spec fn apply_ink(buf: Seq<u8>, width: int, origin: (i32, i32), op: Ink) -> Seq<u8> {
    paint(buf, width, |px: int, py: int| ink_covers(op, px - origin.0, py - origin.1), ink_value(op))
}

/// A buffer after a run of paints through `origin`, in order: later paints cover earlier ones.
pub open spec fn apply_inks(buf: Seq<u8>, width: int, origin: (i32, i32), ops: Seq<Ink>) -> Seq<u8>
    decreases ops.len(),
{
    if ops.len() == 0 {
        buf
    } else {
        apply_ink(apply_inks(buf, width, origin, ops.drop_last()), width, origin, ops.last())
    }
}

/// One more paint after a run is the run with it appended.
pub proof fn lemma_apply_inks_push(
    buf: Seq<u8>,
    width: int,
    origin: (i32, i32),
    ops: Seq<Ink>,
    op: Ink,
)
    ensures
        apply_inks(buf, width, origin, ops.push(op)) == apply_ink(
            apply_inks(buf, width, origin, ops),
            width,
            origin,
            op,
        ),
{
    assert(ops.push(op).drop_last() =~= ops);
}

/// Two runs of paints, one after the other, are their concatenation.
pub proof fn lemma_apply_inks_concat(
    buf: Seq<u8>,
    width: int,
    origin: (i32, i32),
    first: Seq<Ink>,
    second: Seq<Ink>,
)
    ensures
        apply_inks(apply_inks(buf, width, origin, first), width, origin, second) == apply_inks(
            buf,
            width,
            origin,
            first + second,
        ),
    decreases second.len(),
{
    if second.len() == 0 {
        assert(first + second =~= first);
    } else {
        lemma_apply_inks_concat(buf, width, origin, first, second.drop_last());
        assert((first + second).drop_last() =~= first + second.drop_last());
        assert((first + second).last() == second.last());
    }
}

/// Paints keep a buffer's length.
pub proof fn lemma_apply_inks_len(buf: Seq<u8>, width: int, origin: (i32, i32), ops: Seq<Ink>)
    ensures
        apply_inks(buf, width, origin, ops).len() == buf.len(),
    decreases ops.len(),
{
    if ops.len() > 0 {
        lemma_apply_inks_len(buf, width, origin, ops.drop_last());
    }
}

/// The buffer; transparent where nothing was painted.
#[derive(Debug, PartialEq, Eq)]
pub struct Raster {
    /// Width in pixels.
    pub width: u32,
    /// Height in pixels.
    pub height: u32,
    /// RGBA bytes, row-major from the top-left.
    pub rgba: Vec<u8>,
    /// Where the painter's `(0, 0)` lands: paints are moved by it, reads are not.
    pub origin: (i32, i32),
}

impl Clone for Raster {
    /// A copy with the same size, bytes and origin.
    fn clone(&self) -> (r: Raster)
        ensures
            r.width == self.width,
            r.height == self.height,
            r.rgba@ == self.rgba@,
            r.origin == self.origin,
    {
        Raster { width: self.width, height: self.height, rgba: self.rgba.clone(), origin: self.origin }
    }
}

impl Default for Raster {
    /// A transparent canvas-sized buffer.
    fn default() -> (r: Raster)
        ensures
            r.wf(),
            r.width == CANVAS_WIDTH,
            r.height == CANVAS_HEIGHT,
            r.origin == (0i32, 0i32),
            forall|i: int| 0 <= i < r.rgba@.len() ==> r.rgba@[i] == 0,
    {
        Raster::new(CANVAS_WIDTH, CANVAS_HEIGHT)
    }
}

impl Raster {
    /// The buffer holds four bytes for each of its pixels.
    pub open spec fn wf(&self) -> bool {
        self.rgba@.len() == self.width * self.height * 4
    }

    /// The buffer after a paint.
    pub open spec fn after(&self, op: Ink) -> Seq<u8> {
        apply_ink(self.rgba@, self.width as int, self.origin, op)
    }

    /// Whether `(x, y)` is a pixel of the buffer.
    pub open spec fn spec_inside(&self, x: int, y: int) -> bool {
        0 <= x < self.width && 0 <= y < self.height
    }

    /// Byte `c` of the pixel at `(x, y)`.
    pub open spec fn spec_byte(&self, x: int, y: int, c: int) -> u8 {
        self.rgba@[byte_at(self.width as int, x, y, c)]
    }

    /// A transparent buffer of the given size.
    pub fn new(width: u32, height: u32) -> (r: Raster)
        requires
            width * height * 4 <= usize::MAX,
        ensures
            r.wf(),
            r.width == width,
            r.height == height,
            r.origin == (0i32, 0i32),
            forall|i: int| 0 <= i < r.rgba@.len() ==> r.rgba@[i] == 0,
    {
        let n = width as usize * height as usize * 4;
        let mut rgba: Vec<u8> = Vec::with_capacity(n);
        let mut i: usize = 0;
        while i < n
            invariant
                i <= n,
                rgba@.len() == i,
                forall|j: int| 0 <= j < i ==> rgba@[j] == 0,
            decreases n - i,
        {
            rgba.push(0);
            i = i + 1;
        }
        Raster { width, height, rgba, origin: (0, 0) }
    }

    /// Everything transparent again.
    pub fn clear(&mut self)
        ensures
            final(self).width == old(self).width,
            final(self).height == old(self).height,
            final(self).origin == old(self).origin,
            final(self).rgba@.len() == old(self).rgba@.len(),
            forall|i: int| 0 <= i < final(self).rgba@.len() ==> final(self).rgba@[i] == 0,
    {
        let n = self.rgba.len();
        let mut i: usize = 0;
        while i < n
            invariant
                i <= n,
                n == self.rgba@.len(),
                self.width == old(self).width,
                self.height == old(self).height,
                self.origin == old(self).origin,
                forall|j: int| 0 <= j < i ==> self.rgba@[j] == 0,
            decreases n - i,
        {
            self.rgba.set(i, 0);
            i = i + 1;
        }
    }

    /// A blank buffer of this size, keeping the bytes' storage when the size is unchanged.
    pub fn reset(&mut self, width: u32, height: u32)
        requires
            width * height * 4 <= usize::MAX,
        ensures
            final(self).wf(),
            final(self).width == width,
            final(self).height == height,
            final(self).origin == (0i32, 0i32),
            forall|i: int| 0 <= i < final(self).rgba@.len() ==> final(self).rgba@[i] == 0,
    {
        if self.width == width && self.height == height && self.rgba.len() == width as usize
            * height as usize * 4 {
            self.clear();
            self.origin = (0, 0);
        } else {
            *self = Raster::new(width, height);
        }
    }

    /// The pixel's RGBA, or `None` outside the buffer; the origin does not move reads.
    pub fn get(&self, x: i32, y: i32) -> (r: Option<[u8; 4]>)
        requires
            self.wf(),
        ensures
            r is Some <==> self.spec_inside(x as int, y as int),
            r is Some ==> r->0@ == seq![
                self.spec_byte(x as int, y as int, 0),
                self.spec_byte(x as int, y as int, 1),
                self.spec_byte(x as int, y as int, 2),
                self.spec_byte(x as int, y as int, 3),
            ],
    {
        if x < 0 || y < 0 || x as i64 >= self.width as i64 || y as i64 >= self.height as i64 {
            return None;
        }
        let n = self.rgba.len();
        proof {
            lemma_byte_at(x as int, y as int, 3, self.width as int, self.height as int);
            lemma_byte_at(x as int, y as int, 0, self.width as int, self.height as int);
            assert(y * self.width <= y * self.width + x);
            assert((y * self.width + x) * 4 + 3 < n);
        }
        let i = (y as usize * self.width as usize + x as usize) * 4;
        Some([self.rgba[i], self.rgba[i + 1], self.rgba[i + 2], self.rgba[i + 3]])
    }

    /// A stable hash of the bytes, for goldens: FNV-1a of the buffer.
    pub fn fingerprint(&self) -> (r: u64)
        ensures
            r == crate::hash::spec_fnv1a64(self.rgba@),
    {
        crate::hash::fnv1a64(self.rgba.as_slice())
    }

    /// Write one pixel at absolute coordinates; outside the buffer is ignored.
    fn put(&mut self, ax: i64, ay: i64, v: Rgba)
        requires
            old(self).wf(),
        ensures
            final(self).wf(),
            final(self).width == old(self).width,
            final(self).height == old(self).height,
            final(self).origin == old(self).origin,
            final(self).rgba@ == paint(
                old(self).rgba@,
                old(self).width as int,
                |px: int, py: int| px == ax && py == ay,
                v,
            ),
    {
        let ghost w = self.width as int;
        let ghost h = self.height as int;
        let ghost old_buf = self.rgba@;
        if ax < 0 || ay < 0 || ax >= self.width as i64 || ay >= self.height as i64 {
            proof {
                if w > 0 {
                    assert forall|i: int| 0 <= i < old_buf.len() implies paint(
                        old_buf,
                        w,
                        |px: int, py: int| px == ax && py == ay,
                        v,
                    )[i] == old_buf[i] by {
                        lemma_pixel_of(i, w, h);
                    }
                } else {
                    assert(old_buf.len() == 0) by (nonlinear_arith)
                        requires
                            old_buf.len() == w * h * 4,
                            w == 0,
                    ;
                }
                assert(paint(old_buf, w, |px: int, py: int| px == ax && py == ay, v) =~= old_buf);
            }
            return;
        }
        let n = self.rgba.len();
        proof {
            lemma_byte_at(ax as int, ay as int, 3, w, h);
            lemma_byte_at(ax as int, ay as int, 0, w, h);
            assert(ay * w <= ay * w + ax);
            assert((ay * w + ax) * 4 + 3 < n);
        }
        let i = (ay as usize * self.width as usize + ax as usize) * 4;
        self.rgba.set(i, v.0);
        self.rgba.set(i + 1, v.1);
        self.rgba.set(i + 2, v.2);
        self.rgba.set(i + 3, v.3);
        proof {
            let target = paint(old_buf, w, |px: int, py: int| px == ax && py == ay, v);
            assert forall|j: int| 0 <= j < old_buf.len() implies self.rgba@[j] == target[j] by {
                lemma_pixel_of(j, w, h);
                let (x, y, c) = ((j / 4) % w, (j / 4) / w, j % 4);
                if x == ax && y == ay {
                    assert(j == i + c);
                } else {
                    if i <= j < i + 4 {
                        lemma_byte_at(ax as int, ay as int, j - i, w, h);
                    }
                }
            }
            assert(self.rgba@ =~= target);
        }
    }

    /// Write every pixel of `[x0, x1) x [y0, y1)` at absolute coordinates, clipped to the
    /// buffer.
    fn put_block(&mut self, x0: i64, y0: i64, x1: i64, y1: i64, v: Rgba)
        requires
            old(self).wf(),
        ensures
            final(self).wf(),
            final(self).width == old(self).width,
            final(self).height == old(self).height,
            final(self).origin == old(self).origin,
            final(self).rgba@ == paint(
                old(self).rgba@,
                old(self).width as int,
                |px: int, py: int| x0 <= px < x1 && y0 <= py < y1,
                v,
            ),
    {
        let ghost w = self.width as int;
        let ghost h = self.height as int;
        let ghost old_buf = self.rgba@;
        let ghost full = |px: int, py: int| x0 <= px < x1 && y0 <= py < y1;
        let xs = if x0 < 0 {
            0
        } else {
            x0
        };
        let ys = if y0 < 0 {
            0
        } else {
            y0
        };
        let xe = if x1 > self.width as i64 {
            self.width as i64
        } else {
            x1
        };
        let ye = if y1 > self.height as i64 {
            self.height as i64
        } else {
            y1
        };
        if self.width == 0 {
            proof {
                assert(old_buf.len() == 0) by (nonlinear_arith)
                    requires
                        old_buf.len() == w * h * 4,
                        w == 0,
                ;
                assert(paint(old_buf, w, full, v) =~= old_buf);
            }
            return;
        }
        proof {
            assert(paint(old_buf, w, |px: int, py: int| false, v) =~= old_buf);
        }
        let mut y = ys;
        while y < ye
            invariant
                self.wf(),
                self.width == old(self).width,
                self.height == old(self).height,
                self.origin == old(self).origin,
                w == self.width,
                h == self.height,
                w > 0,
                old_buf.len() == w * h * 4,
                ys <= y,
                y <= ye || y == ys,
                xe <= w,
                ye <= h,
                0 <= xs,
                0 <= ys,
                self.rgba@ == paint(
                    old_buf,
                    w,
                    |px: int, py: int| xs <= px < xe && ys <= py < y,
                    v,
                ),
            decreases ye - y,
        {
            let mut x = xs;
            proof {
                lemma_paint_same(
                    old_buf,
                    w,
                    h,
                    |px: int, py: int| xs <= px < xe && ys <= py < y,
                    |px: int, py: int| xs <= px < xe && (ys <= py < y || (py == y && xs <= px < x)),
                    v,
                );
            }
            while x < xe
                invariant
                    self.wf(),
                    self.width == old(self).width,
                    self.height == old(self).height,
                    self.origin == old(self).origin,
                    w == self.width,
                    h == self.height,
                    w > 0,
                    old_buf.len() == w * h * 4,
                    xs <= x,
                    ys <= y < ye,
                    xe <= w,
                    ye <= h,
                    0 <= xs,
                    0 <= ys,
                    self.rgba@ == paint(
                        old_buf,
                        w,
                        |px: int, py: int|
                            xs <= px < xe && (ys <= py < y || (py == y && xs <= px < x)),
                        v,
                    ),
                decreases xe - x,
            {
                self.put(x, y, v);
                proof {
                    let prev = |px: int, py: int|
                        xs <= px < xe && (ys <= py < y || (py == y && xs <= px < x));
                    let one = |px: int, py: int| px == x && py == y;
                    lemma_paint_compose(old_buf, w, prev, one, v);
                    lemma_paint_same(
                        old_buf,
                        w,
                        h,
                        |px: int, py: int| prev(px, py) || one(px, py),
                        |px: int, py: int|
                            xs <= px < xe && (ys <= py < y || (py == y && xs <= px < x + 1)),
                        v,
                    );
                }
                x = x + 1;
            }
            proof {
                lemma_paint_same(
                    old_buf,
                    w,
                    h,
                    |px: int, py: int| xs <= px < xe && (ys <= py < y || (py == y && xs <= px < x)),
                    |px: int, py: int| xs <= px < xe && ys <= py < y + 1,
                    v,
                );
            }
            y = y + 1;
        }
        proof {
            lemma_paint_same(
                old_buf,
                w,
                h,
                |px: int, py: int| xs <= px < xe && ys <= py < y,
                full,
                v,
            );
        }
    }

    /// Paint one opaque pixel through the origin; outside the buffer is ignored.
    pub fn set(&mut self, x: i32, y: i32, color: Rgb)
        requires
            old(self).wf(),
        ensures
            painted_by(*old(self), *final(self), Ink::Pixel { x: x as int, y: y as int, color }),
    {
        let ghost old_buf = self.rgba@;
        let ax = x as i64 + self.origin.0 as i64;
        let ay = y as i64 + self.origin.1 as i64;
        self.put(ax, ay, (color.0, color.1, color.2, 255));
        proof {
            let op = Ink::Pixel { x: x as int, y: y as int, color };
            let o = old(self).origin;
            assert((|px: int, py: int| px == ax && py == ay) =~= (|px: int, py: int|
                ink_covers(op, px - o.0, py - o.1)));
        }
    }

    /// Fill a rectangle through the origin, clipped to the buffer.
    pub fn fill(&mut self, rect: Rect, color: Rgb)
        requires
            old(self).wf(),
        ensures
            painted_by(*old(self), *final(self), Ink::Fill { rect, color }),
    {
        let ax = rect.x as i64 + self.origin.0 as i64;
        let ay = rect.y as i64 + self.origin.1 as i64;
        self.put_block(ax, ay, ax + rect.w as i64, ay + rect.h as i64, (color.0, color.1, color.2, 255));
        proof {
            let op = Ink::Fill { rect, color };
            let o = old(self).origin;
            assert((|px: int, py: int| ax <= px < ax + rect.w && ay <= py < ay + rect.h) =~= (|
                px: int,
                py: int,
            | ink_covers(op, px - o.0, py - o.1)));
        }
    }

    /// Make a rectangle transparent through the origin, clipped to the buffer.
    pub fn erase(&mut self, rect: Rect)
        requires
            old(self).wf(),
        ensures
            painted_by(*old(self), *final(self), Ink::Erase { rect }),
    {
        let ax = rect.x as i64 + self.origin.0 as i64;
        let ay = rect.y as i64 + self.origin.1 as i64;
        self.put_block(ax, ay, ax + rect.w as i64, ay + rect.h as i64, (0, 0, 0, 0));
        proof {
            let op = Ink::Erase { rect };
            let o = old(self).origin;
            assert((|px: int, py: int| ax <= px < ax + rect.w && ay <= py < ay + rect.h) =~= (|
                px: int,
                py: int,
            | ink_covers(op, px - o.0, py - o.1)));
        }
    }

    /// A one-pixel frame just inside the rectangle, through the origin; an empty rectangle
    /// paints nothing.
    pub fn stroke(&mut self, rect: Rect, color: Rgb)
        requires
            old(self).wf(),
        ensures
            painted_by(*old(self), *final(self), Ink::Stroke { rect, color }),
    {
        let ghost old_buf = self.rgba@;
        let ghost w = self.width as int;
        let ghost op = Ink::Stroke { rect, color };
        let ghost o = self.origin;
        let v = (color.0, color.1, color.2, 255u8);
        if rect.w == 0 || rect.h == 0 {
            proof {
                assert(paint(old_buf, w, |px: int, py: int| ink_covers(op, px - o.0, py - o.1), v)
                    =~= old_buf);
            }
            return;
        }
        let x0 = rect.x as i64 + self.origin.0 as i64;
        let y0 = rect.y as i64 + self.origin.1 as i64;
        let x1 = x0 + rect.w as i64;
        let y1 = y0 + rect.h as i64;
        self.put_block(x0, y0, x1, y0 + 1, v);
        self.put_block(x0, y1 - 1, x1, y1, v);
        self.put_block(x0, y0, x0 + 1, y1, v);
        self.put_block(x1 - 1, y0, x1, y1, v);
        proof {
            let top = |px: int, py: int| x0 <= px < x1 && y0 <= py < y0 + 1;
            let bottom = |px: int, py: int| x0 <= px < x1 && y1 - 1 <= py < y1;
            let left = |px: int, py: int| x0 <= px < x0 + 1 && y0 <= py < y1;
            let right = |px: int, py: int| x1 - 1 <= px < x1 && y0 <= py < y1;
            lemma_paint_compose(old_buf, w, top, bottom, v);
            let tb = |px: int, py: int| top(px, py) || bottom(px, py);
            lemma_paint_compose(old_buf, w, tb, left, v);
            let tbl = |px: int, py: int| tb(px, py) || left(px, py);
            lemma_paint_compose(old_buf, w, tbl, right, v);
            assert((|px: int, py: int| tbl(px, py) || right(px, py)) =~= (|px: int, py: int|
                ink_covers(op, px - o.0, py - o.1)));
        }
    }

    /// The selection marker through the origin: a 3x5 triangle pointing right, top-left at
    /// `(x, y)`.
    pub fn marker(&mut self, x: i32, y: i32, color: Rgb)
        requires
            old(self).wf(),
        ensures
            painted_by(*old(self), *final(self), Ink::Marker { x: x as int, y: y as int, color }),
    {
        let ghost old_buf = self.rgba@;
        let ghost w = self.width as int;
        let ghost op = Ink::Marker { x: x as int, y: y as int, color };
        let ghost o = self.origin;
        let v = (color.0, color.1, color.2, 255u8);
        let ax = x as i64 + self.origin.0 as i64;
        let ay = y as i64 + self.origin.1 as i64;
        self.put_block(ax, ay, ax + 1, ay + 1, v);
        self.put_block(ax, ay + 1, ax + 2, ay + 2, v);
        self.put_block(ax, ay + 2, ax + 3, ay + 3, v);
        self.put_block(ax, ay + 3, ax + 2, ay + 4, v);
        self.put_block(ax, ay + 4, ax + 1, ay + 5, v);
        proof {
            let r0 = |px: int, py: int| ax <= px < ax + 1 && ay <= py < ay + 1;
            let r1 = |px: int, py: int| ax <= px < ax + 2 && ay + 1 <= py < ay + 2;
            let r2 = |px: int, py: int| ax <= px < ax + 3 && ay + 2 <= py < ay + 3;
            let r3 = |px: int, py: int| ax <= px < ax + 2 && ay + 3 <= py < ay + 4;
            let r4 = |px: int, py: int| ax <= px < ax + 1 && ay + 4 <= py < ay + 5;
            lemma_paint_compose(old_buf, w, r0, r1, v);
            let a = |px: int, py: int| r0(px, py) || r1(px, py);
            lemma_paint_compose(old_buf, w, a, r2, v);
            let b = |px: int, py: int| a(px, py) || r2(px, py);
            lemma_paint_compose(old_buf, w, b, r3, v);
            let c = |px: int, py: int| b(px, py) || r3(px, py);
            lemma_paint_compose(old_buf, w, c, r4, v);
            assert((|px: int, py: int| c(px, py) || r4(px, py)) =~= (|px: int, py: int|
                ink_covers(op, px - o.0, py - o.1)));
        }
    }

    /// One glyph at absolute coordinates.
    fn glyph_at(&mut self, c: char, ax: i64, ay: i64, v: Rgba)
        requires
            old(self).wf(),
            -0x1_0000_0000_0000 <= ax <= 0x1_0000_0000_0000,
            -0x1_0000_0000_0000 <= ay <= 0x1_0000_0000_0000,
        ensures
            final(self).wf(),
            final(self).width == old(self).width,
            final(self).height == old(self).height,
            final(self).origin == old(self).origin,
            final(self).rgba@ == paint(
                old(self).rgba@,
                old(self).width as int,
                |px: int, py: int| spec_ink(spec_glyph(c), px - ax, py - ay),
                v,
            ),
    {
        let ghost old_buf = self.rgba@;
        let ghost w = self.width as int;
        let g = glyph(c);
        let mut row: i32 = 0;
        proof {
            assert(paint(old_buf, w, |px: int, py: int| false, v) =~= old_buf);
            assert((|px: int, py: int| false) =~= (|px: int, py: int|
                spec_ink(g, px - ax, py - ay) && (py - ay < 0)));
        }
        while row < GLYPH_HEIGHT
            invariant
                0 <= row <= 7,
                g == spec_glyph(c),
                self.wf(),
                self.width == old(self).width,
                self.height == old(self).height,
                self.origin == old(self).origin,
                w == self.width,
                -0x1_0000_0000_0000 <= ax <= 0x1_0000_0000_0000,
                -0x1_0000_0000_0000 <= ay <= 0x1_0000_0000_0000,
                self.rgba@ == paint(
                    old_buf,
                    w,
                    |px: int, py: int| spec_ink(g, px - ax, py - ay) && py - ay < row,
                    v,
                ),
            decreases 7 - row,
        {
            let mut column: i32 = 0;
            proof {
                assert((|px: int, py: int| spec_ink(g, px - ax, py - ay) && py - ay < row) =~= (|
                    px: int,
                    py: int,
                | spec_ink(g, px - ax, py - ay) && (py - ay < row || (py - ay == row && px - ax
                    < column))));
            }
            while column < GLYPH_WIDTH
                invariant
                    0 <= row < 7,
                    0 <= column <= 5,
                    g == spec_glyph(c),
                    self.wf(),
                    self.width == old(self).width,
                    self.height == old(self).height,
                    self.origin == old(self).origin,
                    w == self.width,
                    -0x1_0000_0000_0000 <= ax <= 0x1_0000_0000_0000,
                    -0x1_0000_0000_0000 <= ay <= 0x1_0000_0000_0000,
                    self.rgba@ == paint(
                        old_buf,
                        w,
                        |px: int, py: int|
                            spec_ink(g, px - ax, py - ay) && (py - ay < row || (py - ay == row
                                && px - ax < column)),
                        v,
                    ),
                decreases 5 - column,
            {
                let prev = Ghost(
                    |px: int, py: int|
                        spec_ink(g, px - ax, py - ay) && (py - ay < row || (py - ay == row && px
                            - ax < column)),
                );
                let next = Ghost(
                    |px: int, py: int|
                        spec_ink(g, px - ax, py - ay) && (py - ay < row || (py - ay == row && px
                            - ax < column + 1)),
                );
                if ink(g, column, row) {
                    self.put(ax + column as i64, ay + row as i64, v);
                    proof {
                        let one = |px: int, py: int| px == ax + column && py == ay + row;
                        lemma_paint_compose(old_buf, w, prev@, one, v);
                        assert((|px: int, py: int| prev@(px, py) || one(px, py)) =~= next@);
                    }
                } else {
                    proof {
                        assert(prev@ =~= next@);
                    }
                }
                column = column + 1;
            }
            proof {
                assert((|px: int, py: int|
                    spec_ink(g, px - ax, py - ay) && (py - ay < row || (py - ay == row && px - ax
                        < column))) =~= (|px: int, py: int|
                    spec_ink(g, px - ax, py - ay) && py - ay < row + 1));
            }
            row = row + 1;
        }
        proof {
            assert((|px: int, py: int| spec_ink(g, px - ax, py - ay) && py - ay < row) =~= (|
                px: int,
                py: int,
            | spec_ink(spec_glyph(c), px - ax, py - ay)));
        }
    }

    /// One glyph through the origin with its top-left at `(x, y)`.
    pub fn glyph(&mut self, c: char, x: i32, y: i32, color: Rgb)
        requires
            old(self).wf(),
        ensures
            painted_by(*old(self), *final(self), Ink::Glyph { c, x: x as int, y: y as int, color }),
    {
        let ax = x as i64 + self.origin.0 as i64;
        let ay = y as i64 + self.origin.1 as i64;
        self.glyph_at(c, ax, ay, (color.0, color.1, color.2, 255));
        proof {
            let op = Ink::Glyph { c, x: x as int, y: y as int, color };
            let o = old(self).origin;
            assert((|px: int, py: int| spec_ink(spec_glyph(c), px - ax, py - ay)) =~= (|
                px: int,
                py: int,
            | ink_covers(op, px - o.0, py - o.1)));
        }
    }

    /// Text through the origin from `(x, y)`, one cell per character; spaces paint nothing.
    pub fn text(&mut self, x: i32, y: i32, text: &str, color: Rgb)
        requires
            old(self).wf(),
        ensures
            painted_by(*old(self), *final(self), Ink::Text { x: x as int, y: y as int, text: text@, color }),
    {
        let ghost old_buf = self.rgba@;
        let ghost w = self.width as int;
        let v = (color.0, color.1, color.2, 255u8);
        let ax = x as i64 + self.origin.0 as i64;
        let ay = y as i64 + self.origin.1 as i64;
        let n = text.unicode_len();
        let mut i: usize = 0;
        let mut cx: i64 = ax;
        proof {
            assert((|px: int, py: int| text_covers(ax as int, ay as int, text@.take(0), px, py)) =~= (|
                px: int,
                py: int,
            | false));
            assert(paint(old_buf, w, |px: int, py: int| false, v) =~= old_buf);
        }
        while i < n && cx < self.width as i64
            invariant
                i <= n,
                n == text@.len(),
                self.wf(),
                self.width == old(self).width,
                self.height == old(self).height,
                self.origin == old(self).origin,
                w == self.width,
                -0x1_0000_0000 <= ax <= 0x1_0000_0000,
                -0x1_0000_0000 <= ay <= 0x1_0000_0000,
                cx == ax + 6 * i,
                cx <= 0x1_0000_0000 + 0x1_0000_0000 + 6,
                self.rgba@ == paint(
                    old_buf,
                    w,
                    |px: int, py: int| text_covers(ax as int, ay as int, text@.take(i as int), px, py),
                    v,
                ),
            decreases n - i,
        {
            let c = text.get_char(i);
            let prev = Ghost(
                |px: int, py: int| text_covers(ax as int, ay as int, text@.take(i as int), px, py),
            );
            let next = Ghost(
                |px: int, py: int|
                    text_covers(ax as int, ay as int, text@.take(i + 1), px, py),
            );
            proof {
                assert forall|px: int, py: int| #[trigger] next@(px, py) == (prev@(px, py) || (c != ' '
                    && spec_ink(spec_glyph(c), px - cx, py - ay))) by {
                    lemma_text_step(ax as int, ay as int, text@, i as int, px, py);
                }
            }
            if c != ' ' {
                self.glyph_at(c, cx, ay, v);
                proof {
                    let g = |px: int, py: int| spec_ink(spec_glyph(c), px - cx, py - ay);
                    lemma_paint_compose(old_buf, w, prev@, g, v);
                    assert((|px: int, py: int| prev@(px, py) || g(px, py)) =~= next@);
                }
            } else {
                proof {
                    assert(prev@ =~= next@);
                }
            }
            i = i + 1;
            cx = cx + 6;
        }
        proof {
            let op = Ink::Text { x: x as int, y: y as int, text: text@, color };
            let o = old(self).origin;
            let h = self.height as int;
            let done = |px: int, py: int| text_covers(ax as int, ay as int, text@.take(i as int), px, py);
            let all = |px: int, py: int| text_covers(ax as int, ay as int, text@, px, py);
            if w > 0 {
                assert forall|px: int, py: int| 0 <= px < w && 0 <= py < h implies #[trigger] done(px, py)
                    == all(px, py) by {
                    let d = px - ax;
                    if 0 <= d && d / 6 >= i {
                        vstd::arithmetic::div_mod::lemma_fundamental_div_mod(d, 6);
                        assert(px >= cx);
                    }
                }
                lemma_paint_same(old_buf, w, h, done, all, v);
            } else {
                assert(old_buf.len() == 0) by (nonlinear_arith)
                    requires
                        old_buf.len() == w * h * 4,
                        w == 0,
                ;
                assert(paint(old_buf, w, done, v) =~= paint(old_buf, w, all, v));
            }
            assert(all =~= (|px: int, py: int| ink_covers(op, px - o.0, py - o.1)));
        }
    }
}

/// A raster after a paint: the same size and origin, the bytes `apply_ink` gives.
pub open spec fn painted_by(before: Raster, after: Raster, op: Ink) -> bool {
    &&& after.wf()
    &&& after.width == before.width
    &&& after.height == before.height
    &&& after.origin == before.origin
    &&& after.rgba@ == before.after(op)
}

/// Text inks one cell more with each character: what the first `i + 1` characters ink is what
/// the first `i` ink and the glyph of character `i` in its cell.
pub proof fn lemma_text_step(x: int, y: int, text: Seq<char>, i: int, px: int, py: int)
    requires
        0 <= i < text.len(),
    ensures
        text_covers(x, y, text.take(i + 1), px, py) == (text_covers(x, y, text.take(i), px, py)
            || (text[i] != ' ' && spec_ink(spec_glyph(text[i]), px - (x + 6 * i), py - y))),
{
    let d = px - x;
    if 0 <= d - 6 * i < 6 {
        vstd::arithmetic::div_mod::lemma_fundamental_div_mod_converse(d, 6, i, d - 6 * i);
    } else if 0 <= d {
        if spec_ink(spec_glyph(text[i]), px - (x + 6 * i), py - y) {
            assert(false);
        }
        assert(d / 6 != i) by {
            vstd::arithmetic::div_mod::lemma_fundamental_div_mod(d, 6);
        }
    }
}

/// A paint changes exactly the pixels it covers: after it, every pixel of the buffer the ink
/// covers (through the origin) holds the ink's value, and every other pixel keeps its bytes.
pub proof fn lemma_paint_reads_back(before: Raster, after: Raster, op: Ink, x: int, y: int, c: int)
    requires
        before.wf(),
        painted_by(before, after, op),
        before.spec_inside(x, y),
        0 <= c < 4,
    ensures
        after.spec_byte(x, y, c) == if ink_covers(op, x - before.origin.0, y - before.origin.1) {
            channel(ink_value(op), c)
        } else {
            before.spec_byte(x, y, c)
        },
{
    let o = before.origin;
    lemma_paint_pixel(
        before.rgba@,
        before.width as int,
        before.height as int,
        |px: int, py: int| ink_covers(op, px - o.0, py - o.1),
        ink_value(op),
        x,
        y,
        c,
    );
}

/// What `set` writes, `get` reads back: the pixel set (through the origin) holds the colour,
/// opaque, and every other pixel keeps its bytes.
pub proof fn lemma_set_reads_back(before: Raster, after: Raster, x: int, y: int, color: Rgb, px: int, py: int, c: int)
    requires
        before.wf(),
        painted_by(before, after, Ink::Pixel { x, y, color }),
        before.spec_inside(px, py),
        0 <= c < 4,
    ensures
        px == x + before.origin.0 && py == y + before.origin.1 ==> after.spec_byte(px, py, c) == channel(
            opaque(color),
            c,
        ),
        !(px == x + before.origin.0 && py == y + before.origin.1) ==> after.spec_byte(px, py, c)
            == before.spec_byte(px, py, c),
{
    lemma_paint_reads_back(before, after, Ink::Pixel { x, y, color }, px, py, c);
}

/// The marker is a triangle pointing right, three pixels wide at its middle row and one at
/// its tips, five rows high: it covers `(x + i, y + r)` exactly when `i` is under the row's
/// width 1, 2, 3, 2, 1.
pub proof fn lemma_marker_shape(x: int, y: int, color: Rgb, i: int, r: int)
    ensures
        ink_covers(Ink::Marker { x, y, color }, x + i, y + r) <==> (0 <= r < 5 && 0 <= i && (
        (r == 0 && i < 1) || (r == 1 && i < 2) || (r == 2 && i < 3) || (r == 3 && i < 2) || (r == 4
            && i < 1))),
{
}

} // verus!
