use vstd::prelude::*;
use crate::display::{Colour, ShapeFill};

verus! {

/// `data` with the pixel at index `i` set to `c`, if there is such a pixel.
pub open spec fn put(data: Seq<Colour>, i: int, c: Colour) -> Seq<Colour> {
    if 0 <= i < data.len() {
        data.update(i, c)
    } else {
        data
    }
}

/// The index at which the pixel `(x, y)` is written in a buffer whose rows are `width` pixels
/// long: the coordinates are taken as unsigned 16-bit numbers, so a negative one lands 65536
/// further on.
pub open spec fn pixel_index(width: int, x: int, y: int) -> int {
    (y as u16 as int) * width + (x as u16 as int)
}

/// Whether the pixel `(x, y)` is taken to lie in a buffer of `len` pixels whose rows are `width`
/// long: its index computed with signed coordinates does.
pub open spec fn reaches(len: int, width: int, x: int, y: int) -> bool {
    0 <= y * width + x < len
}

/// Whether plotting `(x, y)` works without a fault: where the pixel is taken to lie in the
/// buffer, the index it is written at lies in it too.
pub open spec fn plot_ok(len: int, width: int, x: int, y: int) -> bool {
    reaches(len, width, x, y) ==> pixel_index(width, x, y) < len
}

/// The pixels after `(x, y)` is set to `c`: at `pixel_index` where the pixel is taken to lie in
/// the buffer, nowhere otherwise.
pub open spec fn plot(data: Seq<Colour>, width: int, x: int, y: int, c: Colour) -> Seq<Colour> {
    if reaches(data.len() as int, width, x, y) {
        put(data, pixel_index(width, x, y), c)
    } else {
        data
    }
}

/// The pixels after `(x, y)` for `lo <= x < hi` are plotted in `c`, left to right.
pub open spec fn hline_plotted(data: Seq<Colour>, width: int, lo: int, hi: int, y: int, c: Colour) -> Seq<Colour>
    decreases hi - lo,
{
    if hi <= lo {
        data
    } else {
        plot(hline_plotted(data, width, lo, hi - 1, y, c), width, hi - 1, y, c)
    }
}

/// The pixels after `(x, y)` for `lo <= y < hi` are plotted in `c`, top to bottom.
pub open spec fn vline_plotted(data: Seq<Colour>, width: int, x: int, lo: int, hi: int, c: Colour) -> Seq<Colour>
    decreases hi - lo,
{
    if hi <= lo {
        data
    } else {
        plot(vline_plotted(data, width, x, lo, hi - 1, c), width, x, hi - 1, c)
    }
}

/// An unsigned offset converted to `i16`, saturating at `i16::MAX`.
pub open spec fn saturate_i16(v: u16) -> int {
    if v > 32767 {
        32767
    } else {
        v as int
    }
}

/// Converts an unsigned offset to `i16`, saturating at `i16::MAX` (as `az::SaturatingAs` does).
pub fn saturating_as_i16(v: u16) -> (r: i16)
    ensures
        r == saturate_i16(v),
{
    if v > 32767 {
        32767
    } else {
        v as i16
    }
}

/// The pixels after a horizontal or vertical line is drawn in `colour` from `(x1, y1)` up to, but
/// not including, `(x2, y2)`, in a buffer whose rows are `width` pixels long: its pixels are
/// plotted from the lesser end.
pub open spec fn line_painted(data: Seq<Colour>, width: int, x1: int, y1: int, x2: int, y2: int, colour: Colour) -> Seq<Colour> {
    if y1 == y2 {
        hline_plotted(data, width, if x1 <= x2 { x1 } else { x2 }, if x1 <= x2 { x2 } else { x1 }, y1, colour)
    } else {
        vline_plotted(data, width, x1, if y1 <= y2 { y1 } else { y2 }, if y1 <= y2 { y2 } else { y1 }, colour)
    }
}

/// Whether a horizontal or vertical line from `(x1, y1)` to `(x2, y2)` can be drawn in a buffer of
/// `len` pixels without a fault: each of its pixels can be plotted.
pub open spec fn line_ok(len: int, width: int, x1: int, y1: int, x2: int, y2: int) -> bool {
    if y1 == y2 {
        forall|x: int| (if x1 <= x2 { x1 } else { x2 }) <= x < (if x1 <= x2 { x2 } else { x1 }) ==> #[trigger] plot_ok(len, width, x, y1)
    } else {
        forall|y: int| (if y1 <= y2 { y1 } else { y2 }) <= y < (if y1 <= y2 { y2 } else { y1 }) ==> #[trigger] plot_ok(len, width, x1, y)
    }
}

/// Whether the border pixel `(px, py)` of a rectangle is reached when it is drawn at coordinates
/// converted to `i16`: its signed index is not negative.
pub open spec fn border_reaches(width: int, px: int, py: int) -> bool {
    0 <= (py as i16 as int) * width + (px as i16 as int)
}

/// Whether `(px, py)` is drawn by a rectangle at `(x, y)` of size `w` by `h`: every pixel inside
/// when filled, the pixels of its border otherwise.
pub open spec fn in_rect(x: int, y: int, w: int, h: int, filled: bool, px: int, py: int) -> bool {
    &&& x <= px < x + w
    &&& y <= py < y + h
    &&& (filled || px == x || py == y || px == x + w - 1 || py == y + h - 1)
}

/// Where a rectangle edge starts once clipped at zero, and how long it still is: a rectangle that
/// starts before the origin loses the part before it.
pub open spec fn clip_low(start: int, len: int) -> (int, int) {
    if start < 0 {
        (0, len + start)
    } else {
        (start, len)
    }
}

/// The length of a rectangle edge starting at `start` once clipped at `limit`.
pub open spec fn clip_high(start: int, len: int, limit: int) -> int {
    if start + len >= limit {
        limit - start
    } else {
        len
    }
}

/// Whether `draw_rect` can clip an edge at `start` of length `len` to `[0, limit)` without an
/// arithmetic fault: it cannot take the magnitude of `i16::MIN`, cannot clip off more than the
/// edge's length, and needs the clipped start to lie within the limit.
pub open spec fn clip_ok(start: int, len: int, limit: int) -> bool {
    &&& start > -32768
    &&& (start < 0 ==> -start <= len)
    &&& clip_low(start, len).0 + clip_low(start, len).1 <= 65535
    &&& clip_low(start, len).0 <= limit
}

proof fn lemma_grid_index_unique(w: int, px: int, py: int, cx: int, cy: int)
    requires
        0 <= px < w,
        0 <= cx < w,
        py * w + px == cy * w + cx,
    ensures
        px == cx,
        py == cy,
{
    assert(py == cy) by (nonlinear_arith)
        requires 0 <= px < w, 0 <= cx < w, py * w + px == cy * w + cx;
}

proof fn lemma_grid_index_bounds(w: int, h: int, px: int, py: int)
    requires
        0 <= px < w,
        0 <= py < h,
    ensures
        0 <= py * w + px < w * h,
{
    assert(0 <= py * w + px < w * h) by (nonlinear_arith)
        requires 0 <= px < w, 0 <= py < h;
}

/// `data` after the first `n` pixels of column `ox` of `src` are drawn with their top-left corner
/// at `(x, y)`, top to bottom, in a buffer whose rows are `width` pixels long.
pub open spec fn blit_column(data: Seq<Colour>, width: int, x: int, y: int, src: Sprite, ox: int, n: int) -> Seq<Colour>
    decreases n,
{
    if n <= 0 {
        data
    } else {
        plot(
            blit_column(data, width, x, y, src, ox, n - 1),
            width,
            x + saturate_i16(ox as u16),
            y + saturate_i16((n - 1) as u16),
            src.at(ox, n - 1),
        )
    }
}

/// Whether pixel `(ox, oy)` of a sprite drawn at `(x, y)` can be plotted in a buffer of `len`
/// pixels whose rows are `width` long.
pub open spec fn blit_pixel_ok(len: int, width: int, x: int, y: int, ox: int, oy: int) -> bool {
    plot_ok(len, width, x + saturate_i16(ox as u16), y + saturate_i16(oy as u16))
}

/// `data` after the first `m` columns of `src` are drawn with their top-left corner at `(x, y)`,
/// column by column.
pub open spec fn blit(data: Seq<Colour>, width: int, x: int, y: int, src: Sprite, m: int) -> Seq<Colour>
    decreases m,
{
    if m <= 0 {
        data
    } else {
        blit_column(blit(data, width, x, y, src, m - 1), width, x, y, src, m - 1, src.height as int)
    }
}

/// The pixels of a buffer with rows `width` long after a rectangle at `(x, y)` of size `w` by
/// `h`, clipped to `width` by `height`, is painted in `colour`: all of it when `filled`, its
/// border otherwise.
pub open spec fn rect_painted(data: Seq<Colour>, width: int, height: int, x: int, y: int, w: int, h: int, colour: Colour, filled: bool) -> Seq<Colour> {
    let cx = clip_low(x, w).0;
    let cy = clip_low(y, h).0;
    let cw = clip_high(cx, clip_low(x, w).1, width);
    let ch = clip_high(cy, clip_low(y, h).1, height);
    Seq::new(data.len(), |i: int|
        if in_rect(cx, cy, cw, ch, filled, i % width, i / width) && (filled || border_reaches(width, i % width, i / width)) {
            colour
        } else {
            data[i]
        })
}

proof fn lemma_grid_cover(w: int, h: int, i: int)
    requires
        0 <= w,
        0 <= h,
        0 <= i < w * h,
    ensures
        w > 0,
        0 <= i % w < w,
        0 <= i / w < h,
        (i / w) * w + i % w == i,
{
    assert(w > 0) by (nonlinear_arith)
        requires 0 <= i < w * h, 0 <= w, 0 <= h;
    assert(0 <= i % w < w && (i / w) * w + i % w == i) by (nonlinear_arith)
        requires w > 0, 0 <= i;
    assert(0 <= i / w < h) by (nonlinear_arith)
        requires w > 0, 0 <= i < w * h;
}

/// A two-dimensional grid of colours that can be drawn onto, with a text cursor.
#[derive(Clone, Debug)]
pub struct Sprite {
    pub width: u16,
    pub height: u16,
    pub data: Vec<Colour>,
    pub cursor_x: i16,
    pub cursor_y: i16,
}

impl Sprite {
    /// The pixel buffer holds exactly `width * height` pixels, row by row.
    pub open spec fn wf(&self) -> bool {
        self.data@.len() == self.width * self.height
    }

    /// The index of the pixel `(x, y)` in `data`.
    pub open spec fn index_of(&self, x: int, y: int) -> int {
        y * self.width + x
    }

    /// The colour of the pixel `(x, y)`.
    pub open spec fn at(&self, x: int, y: int) -> Colour {
        self.data@[self.index_of(x, y)]
    }

    /// Whether `other` has the same size and cursor as `self`.
    pub open spec fn same_frame(&self, other: &Sprite) -> bool {
        &&& other.width == self.width
        &&& other.height == self.height
        &&& other.cursor_x == self.cursor_x
        &&& other.cursor_y == self.cursor_y
    }

    /// A black sprite of the given size, with its cursor at the origin.
    pub fn new(width: u16, height: u16) -> (s: Sprite)
        requires
            width * height <= usize::MAX,
        ensures
            s.width == width,
            s.height == height,
            s.wf(),
            forall|i: int| 0 <= i < s.data@.len() ==> s.data@[i] == Colour(0),
            s.cursor_x == 0,
            s.cursor_y == 0,
    {
        let n = width as usize * height as usize;
        Sprite { width, height, data: vec![Colour::black(); n], cursor_x: 0, cursor_y: 0 }
    }

    /// A sprite with no pixels.
    pub fn empty() -> (s: Sprite)
        ensures
            s.width == 0,
            s.height == 0,
            s.data@.len() == 0,
            s.cursor_x == 0,
            s.cursor_y == 0,
    {
        Sprite::new(0, 0)
    }

    /// Changes the size of the sprite, making every pixel black. The cursor is kept.
    pub fn resize(&mut self, width: u16, height: u16)
        requires
            width * height <= usize::MAX,
        ensures
            final(self).width == width,
            final(self).height == height,
            final(self).wf(),
            forall|i: int| 0 <= i < final(self).data@.len() ==> final(self).data@[i] == Colour(0),
            final(self).cursor_x == old(self).cursor_x,
            final(self).cursor_y == old(self).cursor_y,
    {
        self.width = width;
        self.height = height;
        let n = width as usize * height as usize;
        self.data.resize(n, Colour::black());
        self.fill(Colour::black());
    }

    /// A mutable reference to the pixel `(x, y)`, which must lie inside the buffer.
    pub fn pixel(&mut self, x: u16, y: u16) -> (p: &mut Colour)
        requires
            old(self).index_of(x as int, y as int) < old(self).data@.len(),
        ensures
            *p == old(self).at(x as int, y as int),
            final(self).data@ == old(self).data@.update(old(self).index_of(x as int, y as int), *final(p)),
            old(self).same_frame(&*final(self)),
    {
        let n = self.data.len();
        let yy = y as usize;
        let ww = self.width as usize;
        assert(yy * ww + x < n);
        let i = yy * ww + x as usize;
        &mut self.data[i]
    }

    /// The colour of the pixel `(x, y)`, which must lie inside the buffer.
    pub fn pixel_immutable(&self, x: u16, y: u16) -> (c: Colour)
        requires
            self.index_of(x as int, y as int) < self.data@.len(),
        ensures
            c == self.at(x as int, y as int),
    {
        let n = self.data.len();
        let yy = y as usize;
        let ww = self.width as usize;
        assert(yy * ww + x < n);
        self.data[yy * ww + x as usize]
    }

    /// The index at which `(x, y)` is written, if the pixel is taken to lie inside the buffer.
    fn checked_index(&self, x: i16, y: i16) -> (r: Option<usize>)
        requires
            plot_ok(self.data@.len() as int, self.width as int, x as int, y as int),
        ensures
            r is Some <==> reaches(self.data@.len() as int, self.width as int, x as int, y as int),
            r matches Some(i) ==> i == pixel_index(self.width as int, x as int, y as int),
    {
        let w = self.width as i64;
        proof {
            assert(-32768 * 65535 <= y * w <= 32767 * 65535) by (nonlinear_arith)
                requires -32768 <= y <= 32767, 0 <= w <= 65535;
        }
        let index = y as i64 * w + x as i64;
        if index < 0 || index as usize >= self.data.len() {
            None
        } else {
            let uy = #[verifier::truncate] (y as u16);
            let ux = #[verifier::truncate] (x as u16);
            proof {
                assert(uy as int * (self.width as int) <= 65535 * 65535) by (nonlinear_arith)
                    requires uy <= 65535, self.width <= 65535;
            }
            Some(uy as usize * self.width as usize + ux as usize)
        }
    }

    /// A mutable reference to the pixel `(x, y)`, or `None` if it is taken to lie outside the
    /// buffer (see `pixel_index` for where a negative coordinate lands).
    pub fn try_pixel(&mut self, x: i16, y: i16) -> (p: Option<&mut Colour>)
        requires
            plot_ok(old(self).data@.len() as int, old(self).width as int, x as int, y as int),
        ensures
            p is Some <==> reaches(old(self).data@.len() as int, old(self).width as int, x as int, y as int),
            p is None ==> *final(self) == *old(self),
            p matches Some(r) ==> *r == old(self).data@[pixel_index(old(self).width as int, x as int, y as int)] && final(self).data@
                == old(self).data@.update(pixel_index(old(self).width as int, x as int, y as int), *final(r)),
            old(self).same_frame(&*final(self)),
    {
        match self.checked_index(x, y) {
            Some(i) => Some(&mut self.data[i]),
            None => None,
        }
    }

    /// The colour of the pixel `(x, y)`, or `None` if it is taken to lie outside the buffer.
    pub fn try_pixel_immutable(&self, x: i16, y: i16) -> (c: Option<Colour>)
        requires
            plot_ok(self.data@.len() as int, self.width as int, x as int, y as int),
        ensures
            c is Some <==> reaches(self.data@.len() as int, self.width as int, x as int, y as int),
            c matches Some(v) ==> v == self.data@[pixel_index(self.width as int, x as int, y as int)],
    {
        match self.checked_index(x, y) {
            Some(i) => Some(self.data[i]),
            None => None,
        }
    }

    /// Sets every pixel to `colour`.
    pub fn fill(&mut self, colour: Colour)
        ensures
            final(self).data@.len() == old(self).data@.len(),
            forall|i: int| 0 <= i < final(self).data@.len() ==> final(self).data@[i] == colour,
            old(self).same_frame(&*final(self)),
    {
        let n = self.data.len();
        let mut i: usize = 0;
        while i < n
            invariant
                n == self.data@.len(),
                n == old(self).data@.len(),
                i <= n,
                forall|j: int| 0 <= j < i ==> self.data@[j] == colour,
                old(self).same_frame(&*self),
            decreases n - i,
        {
            self.data.set(i, colour);
            i = i + 1;
        }
    }

    /// Draws a horizontal or vertical line from `(x1, y1)` up to, but not including, `(x2, y2)`.
    /// The end points may be given in either order. Lines at other angles are drawn with
    /// anti-aliasing, which needs floating point; this function does not take them.
    pub fn draw_line(&mut self, x1: i16, y1: i16, x2: i16, y2: i16, colour: Colour)
        requires
            x1 == x2 || y1 == y2,
            line_ok(old(self).data@.len() as int, old(self).width as int, x1 as int, y1 as int, x2 as int, y2 as int),
        ensures
            final(self).data@ == line_painted(old(self).data@, old(self).width as int, x1 as int, y1 as int, x2 as int, y2 as int, colour),
            final(self).data@.len() == old(self).data@.len(),
            old(self).same_frame(&*final(self)),
    {
        let ghost w = self.width as int;
        let ghost n = self.data@.len() as int;
        if y1 == y2 {
            let (lo, hi) = if x1 > x2 { (x2, x1) } else { (x1, x2) };
            let mut x = lo;
            while x < hi
                invariant
                    lo <= x <= hi,
                    w == self.width,
                    n == old(self).data@.len(),
                    self.data@.len() == n,
                    old(self).same_frame(&*self),
                    forall|xx: int| lo <= xx < hi ==> #[trigger] plot_ok(n, w, xx, y1 as int),
                    self.data@ == hline_plotted(old(self).data@, w, lo as int, x as int, y1 as int, colour),
                decreases hi - x,
            {
                assert(plot_ok(n, w, x as int, y1 as int));
                self.draw_pixel(x, y1, colour);
                x = x + 1;
            }
        } else {
            let (lo, hi) = if y1 > y2 { (y2, y1) } else { (y1, y2) };
            let mut y = lo;
            while y < hi
                invariant
                    lo <= y <= hi,
                    w == self.width,
                    n == old(self).data@.len(),
                    self.data@.len() == n,
                    old(self).same_frame(&*self),
                    forall|yy: int| lo <= yy < hi ==> #[trigger] plot_ok(n, w, x1 as int, yy),
                    self.data@ == vline_plotted(old(self).data@, w, x1 as int, lo as int, y as int, colour),
                decreases hi - y,
            {
                assert(plot_ok(n, w, x1 as int, y as int));
                self.draw_pixel(x1, y, colour);
                y = y + 1;
            }
        }
    }

    /// Draws a rectangle at `(x, y)` of size `w` by `h`, filled or as a one-pixel border. The parts
    /// of it before the origin or beyond the sprite's edges are clipped off. The radius of rounded
    /// corners is accepted but not yet applied.
    #[verifier::rlimit(40)]
    pub fn draw_rect(&mut self, x: i16, y: i16, w: u16, h: u16, colour: Colour, filled: ShapeFill, _radius: u16)
        requires
            old(self).wf(),
            clip_ok(x as int, w as int, old(self).width as int),
            clip_ok(y as int, h as int, old(self).height as int),
        ensures
            final(self).wf(),
            old(self).same_frame(&*final(self)),
            forall|px: int, py: int|
                0 <= px < old(self).width && 0 <= py < old(self).height ==> #[trigger] final(self).at(px, py) == if in_rect(
                    clip_low(x as int, w as int).0,
                    clip_low(y as int, h as int).0,
                    clip_high(clip_low(x as int, w as int).0, clip_low(x as int, w as int).1, old(self).width as int),
                    clip_high(clip_low(y as int, h as int).0, clip_low(y as int, h as int).1, old(self).height as int),
                    filled == ShapeFill::Filled,
                    px,
                    py,
                ) && (filled == ShapeFill::Filled || border_reaches(old(self).width as int, px, py)) {
                    colour
                } else {
                    old(self).at(px, py)
                },
            final(self).data@ == rect_painted(
                old(self).data@,
                old(self).width as int,
                old(self).height as int,
                x as int,
                y as int,
                w as int,
                h as int,
                colour,
                filled == ShapeFill::Filled,
            ),
    {
        let (cx, cy, cw, ch) = self.clip_rect(x, y, w, h);
        let is_filled = match filled {
            ShapeFill::Filled => true,
            ShapeFill::Hollow => false,
        };
        self.paint_rect(cx, cy, cw, ch, is_filled, colour, true);
        proof {
            let ww = old(self).width as int;
            let hh = old(self).height as int;
            let expected = rect_painted(old(self).data@, ww, hh, x as int, y as int, w as int, h as int, colour, is_filled);
            assert forall|i: int| 0 <= i < self.data@.len() implies self.data@[i] == expected[i] by {
                lemma_grid_cover(ww, hh, i);
                assert(self.at(i % ww, i / ww) == self.data@[i]);
                assert(old(self).at(i % ww, i / ww) == old(self).data@[i]);
            }
            assert(self.data@ =~= expected);
        }
    }

    /// The rectangle `draw_rect` draws once clipped to the sprite: (x, y, width, height).
    fn clip_rect(&self, x: i16, y: i16, w: u16, h: u16) -> (r: (u16, u16, u16, u16))
        requires
            clip_ok(x as int, w as int, self.width as int),
            clip_ok(y as int, h as int, self.height as int),
        ensures
            r.0 == clip_low(x as int, w as int).0,
            r.1 == clip_low(y as int, h as int).0,
            r.2 == clip_high(clip_low(x as int, w as int).0, clip_low(x as int, w as int).1, self.width as int),
            r.3 == clip_high(clip_low(y as int, h as int).0, clip_low(y as int, h as int).1, self.height as int),
            r.0 + r.2 <= self.width,
            r.1 + r.3 <= self.height,
    {
        let mut w = w;
        let mut h = h;
        let x: u16 = if x < 0 {
            w = w - ((-x) as u16);
            0
        } else {
            x as u16
        };
        if x + w >= self.width {
            w = self.width - x;
        }
        let y: u16 = if y < 0 {
            h = h - ((-y) as u16);
            0
        } else {
            y as u16
        };
        if y + h >= self.height {
            h = self.height - y;
        }
        (x, y, w, h)
    }

    /// Paints a rectangle lying inside the sprite, filled or as a border. With `via_i16`, border
    /// pixels are drawn through `draw_pixel` at coordinates converted to `i16`, which reaches a
    /// pixel only where `border_reaches` holds.
    #[verifier::rlimit(60)]
    fn paint_rect(&mut self, x: u16, y: u16, w: u16, h: u16, is_filled: bool, colour: Colour, via_i16: bool)
        requires
            old(self).wf(),
            x + w <= old(self).width,
            y + h <= old(self).height,
        ensures
            final(self).wf(),
            old(self).same_frame(&*final(self)),
            forall|px: int, py: int|
                0 <= px < old(self).width && 0 <= py < old(self).height ==> #[trigger] final(self).at(px, py) == if in_rect(
                    x as int,
                    y as int,
                    w as int,
                    h as int,
                    is_filled,
                    px,
                    py,
                ) && (is_filled || !via_i16 || border_reaches(old(self).width as int, px, py)) {
                    colour
                } else {
                    old(self).at(px, py)
                },
    {
        let ghost width = self.width as int;
        let ghost height = self.height as int;
        let x_end = x + w;
        let y_end = y + h;
        let mut curr_y = y;
        while curr_y < y_end
            invariant
                self.wf(),
                old(self).same_frame(&*self),
                width == self.width,
                height == self.height,
                x_end <= width,
                y_end <= height,
                x <= x_end,
                y <= curr_y <= y_end,
                x_end == x + w,
                y_end == y + h,
                forall|px: int, py: int|
                    0 <= px < width && 0 <= py < height ==> #[trigger] self.at(px, py) == if in_rect(
                        x as int,
                        y as int,
                        w as int,
                        h as int,
                        is_filled,
                        px,
                        py,
                    ) && (is_filled || !via_i16 || border_reaches(width, px, py)) && py < curr_y {
                        colour
                    } else {
                        old(self).at(px, py)
                    },
            decreases y_end - curr_y,
        {
            let mut curr_x = x;
            while curr_x < x_end
                invariant
                    self.wf(),
                    old(self).same_frame(&*self),
                    width == self.width,
                    height == self.height,
                    x_end <= width,
                    y_end <= height,
                    x <= curr_x <= x_end,
                    y <= curr_y < y_end,
                    x_end == x + w,
                    y_end == y + h,
                    forall|px: int, py: int|
                        0 <= px < width && 0 <= py < height ==> #[trigger] self.at(px, py) == if in_rect(
                            x as int,
                            y as int,
                            w as int,
                            h as int,
                            is_filled,
                            px,
                            py,
                        ) && (is_filled || !via_i16 || border_reaches(width, px, py)) && (py < curr_y || (py == curr_y && px < curr_x)) {
                            colour
                        } else {
                            old(self).at(px, py)
                        },
                decreases x_end - curr_x,
            {
                let ghost before = *self;
                let ghost ci = (curr_y as int) * width + curr_x;
                proof {
                    lemma_grid_index_bounds(width, height, curr_x as int, curr_y as int);
                }
                let border = curr_x == x || curr_y == y || curr_x == x_end - 1 || curr_y == y_end - 1;
                let ghost drawn = is_filled || (border && (!via_i16 || border_reaches(width, curr_x as int, curr_y as int)));
                if is_filled {
                    let n = self.data.len();
                    let yy = curr_y as usize;
                    let ww = self.width as usize;
                    assert(yy * ww + curr_x < n);
                    let i = yy * ww + curr_x as usize;
                    self.data.set(i, colour);
                } else if border {
                    if via_i16 {
                        let sx = #[verifier::truncate] (curr_x as i16);
                        let sy = #[verifier::truncate] (curr_y as i16);
                        proof {
                            let cx = curr_x;
                            let cy = curr_y;
                            assert((cx as i16) as u16 == cx) by (bit_vector);
                            assert((cy as i16) as u16 == cy) by (bit_vector);
                            assert(pixel_index(width, sx as int, sy as int) == ci);
                            assert(sy * width + sx <= ci) by (nonlinear_arith)
                                requires
                                    sy <= cy,
                                    sx <= cx,
                                    0 <= width,
                                    ci == cy * width + cx;
                        }
                        self.draw_pixel(sx, sy, colour);
                    } else {
                        let n = self.data.len();
                        let yy = curr_y as usize;
                        let ww = self.width as usize;
                        assert(yy * ww + curr_x < n);
                        let i = yy * ww + curr_x as usize;
                        self.data.set(i, colour);
                    }
                }
                proof {
                    assert(drawn ==> self.data@ == before.data@.update(ci, colour));
                    assert(!drawn ==> self.data@ == before.data@);
                    assert forall|px: int, py: int|
                        0 <= px < width && 0 <= py < height implies #[trigger] self.at(px, py) == if in_rect(
                            x as int,
                            y as int,
                            w as int,
                            h as int,
                            is_filled,
                            px,
                            py,
                        ) && (is_filled || !via_i16 || border_reaches(width, px, py)) && (py < curr_y || (py == curr_y && px < curr_x + 1)) {
                            colour
                        } else {
                            old(self).at(px, py)
                        } by {
                        assert(before.at(px, py) == if in_rect(x as int, y as int, w as int, h as int, is_filled, px, py)
                            && (is_filled || !via_i16 || border_reaches(width, px, py)) && (py < curr_y || (py == curr_y && px < curr_x)) {
                            colour
                        } else {
                            old(self).at(px, py)
                        });
                        lemma_grid_index_bounds(width, height, px, py);
                        if py * width + px == ci {
                            lemma_grid_index_unique(width, px, py, curr_x as int, curr_y as int);
                        } else {
                            assert(self.data@[py * width + px] == before.data@[py * width + px]);
                        }
                    }
                }
                curr_x = curr_x + 1;
            }
            curr_y = curr_y + 1;
        }
    }

    /// Copies every pixel of `sprite` onto this sprite with its top-left corner at `(x, y)`,
    /// column by column, skipping the pixels that fall outside the buffer.
    pub fn draw_sprite(&mut self, x: i16, y: i16, sprite: &Sprite)
        requires
            sprite.wf(),
            sprite.width > 0 ==> x + saturate_i16((sprite.width - 1) as u16) <= 32767,
            sprite.height > 0 ==> y + saturate_i16((sprite.height - 1) as u16) <= 32767,
            forall|ox: int, oy: int| 0 <= ox < sprite.width && 0 <= oy < sprite.height ==> #[trigger] blit_pixel_ok(
                old(self).data@.len() as int,
                old(self).width as int,
                x as int,
                y as int,
                ox,
                oy,
            ),
        ensures
            final(self).data@ == blit(old(self).data@, old(self).width as int, x as int, y as int, *sprite, sprite.width as int),
            final(self).data@.len() == old(self).data@.len(),
            old(self).same_frame(&*final(self)),
    {
        let ghost width = self.width as int;
        let mut x_offset: u16 = 0;
        while x_offset < sprite.width
            invariant
                x_offset <= sprite.width,
                sprite.wf(),
                sprite.width > 0 ==> x + saturate_i16((sprite.width - 1) as u16) <= 32767,
                sprite.height > 0 ==> y + saturate_i16((sprite.height - 1) as u16) <= 32767,
                width == self.width,
                old(self).same_frame(&*self),
                self.data@.len() == old(self).data@.len(),
                forall|ox: int, oy: int| 0 <= ox < sprite.width && 0 <= oy < sprite.height ==> #[trigger] blit_pixel_ok(
                    old(self).data@.len() as int,
                    width,
                    x as int,
                    y as int,
                    ox,
                    oy,
                ),
                self.data@ == blit(old(self).data@, width, x as int, y as int, *sprite, x_offset as int),
            decreases sprite.width - x_offset,
        {
            let ghost column_start = self.data@;
            let mut y_offset: u16 = 0;
            while y_offset < sprite.height
                invariant
                    x_offset < sprite.width,
                    y_offset <= sprite.height,
                    sprite.wf(),
                    sprite.width > 0 ==> x + saturate_i16((sprite.width - 1) as u16) <= 32767,
                    sprite.height > 0 ==> y + saturate_i16((sprite.height - 1) as u16) <= 32767,
                    width == self.width,
                    old(self).same_frame(&*self),
                    self.data@.len() == old(self).data@.len(),
                    forall|ox: int, oy: int| 0 <= ox < sprite.width && 0 <= oy < sprite.height ==> #[trigger] blit_pixel_ok(
                        old(self).data@.len() as int,
                        width,
                        x as int,
                        y as int,
                        ox,
                        oy,
                    ),
                    self.data@ == blit_column(column_start, width, x as int, y as int, *sprite, x_offset as int, y_offset as int),
                decreases sprite.height - y_offset,
            {
                proof {
                    lemma_grid_index_bounds(sprite.width as int, sprite.height as int, x_offset as int, y_offset as int);
                    assert(saturate_i16(x_offset) <= saturate_i16((sprite.width - 1) as u16));
                    assert(saturate_i16(y_offset) <= saturate_i16((sprite.height - 1) as u16));
                }
                assert(blit_pixel_ok(old(self).data@.len() as int, width, x as int, y as int, x_offset as int, y_offset as int));
                let colour = sprite.pixel_immutable(x_offset, y_offset);
                let px = x + saturating_as_i16(x_offset);
                let py = y + saturating_as_i16(y_offset);
                self.draw_pixel(px, py, colour);
                y_offset = y_offset + 1;
            }
            x_offset = x_offset + 1;
        }
    }

    /// Sets the pixel `(x, y)` to `colour`, if it is taken to lie inside the buffer (see
    /// `pixel_index` for where a negative coordinate lands).
    pub fn draw_pixel(&mut self, x: i16, y: i16, colour: Colour)
        requires
            plot_ok(old(self).data@.len() as int, old(self).width as int, x as int, y as int),
        ensures
            final(self).data@ == plot(old(self).data@, old(self).width as int, x as int, y as int, colour),
            old(self).same_frame(&*final(self)),
    {
        if let Some(i) = self.checked_index(x, y) {
            self.data.set(i, colour);
        }
    }
}

/// A surface that rectangles can be drawn onto, such as a sprite or a display.
///
/// `accepts_rect` says which rectangles a surface can take without a fault; `filled_with` and
/// `rect_drawn` say, of a surface after a successful call, what the call did to it; on a surface
/// whose `never_fails` holds, every call succeeds.
pub trait DrawingSurface {
    type Error;

    spec fn accepts_rect(&self, x: i16, y: i16, w: u16, h: u16) -> bool;

    spec fn filled_with(&self, before: &Self, colour: Colour) -> bool;

    spec fn rect_drawn(&self, before: &Self, x: i16, y: i16, w: u16, h: u16, filled: bool, colour: Colour) -> bool;

    /// Whether drawing on the surface always succeeds, as it does on a surface held in memory.
    spec fn never_fails(&self) -> bool;

    fn fill_surface(&mut self, colour: Colour) -> (r: Result<(), Self::Error>)
        ensures
            r is Ok ==> final(self).filled_with(old(self), colour),
            old(self).never_fails() ==> r is Ok,
    ;

    fn draw_rect(&mut self, x: i16, y: i16, w: u16, h: u16, filled: bool, colour: Colour) -> (r: Result<(), Self::Error>)
        requires
            old(self).accepts_rect(x, y, w, h),
        ensures
            r is Ok ==> final(self).rect_drawn(old(self), x, y, w, h, filled, colour),
            old(self).never_fails() ==> r is Ok,
    ;
}

impl DrawingSurface for Sprite {
    type Error = core::convert::Infallible;

    /// A well-formed sprite takes any rectangle that can be clipped to it without a fault.
    open spec fn accepts_rect(&self, x: i16, y: i16, w: u16, h: u16) -> bool {
        &&& self.wf()
        &&& clip_ok(x as int, w as int, self.width as int)
        &&& clip_ok(y as int, h as int, self.height as int)
    }

    /// A sprite is memory: drawing on it cannot fail.
    open spec fn never_fails(&self) -> bool {
        true
    }

    /// Every pixel is `colour`, and the size and cursor are kept.
    open spec fn filled_with(&self, before: &Self, colour: Colour) -> bool {
        &&& self.data@.len() == before.data@.len()
        &&& forall|i: int| 0 <= i < self.data@.len() ==> self.data@[i] == colour
        &&& before.same_frame(self)
    }

    /// The pixels of the clipped rectangle (or of its border) are `colour`, the others are kept.
    open spec fn rect_drawn(&self, before: &Self, x: i16, y: i16, w: u16, h: u16, filled: bool, colour: Colour) -> bool {
        &&& self.wf()
        &&& before.same_frame(self)
        &&& forall|px: int, py: int|
            0 <= px < before.width && 0 <= py < before.height ==> #[trigger] self.at(px, py) == if in_rect(
                clip_low(x as int, w as int).0,
                clip_low(y as int, h as int).0,
                clip_high(clip_low(x as int, w as int).0, clip_low(x as int, w as int).1, before.width as int),
                clip_high(clip_low(y as int, h as int).0, clip_low(y as int, h as int).1, before.height as int),
                filled,
                px,
                py,
            ) {
                colour
            } else {
                before.at(px, py)
            }
    }

    fn fill_surface(&mut self, colour: Colour) -> (r: Result<(), Self::Error>) {
        self.fill(colour);
        Ok(())
    }

    fn draw_rect(&mut self, x: i16, y: i16, w: u16, h: u16, filled: bool, colour: Colour) -> (r: Result<(), Self::Error>) {
        let (cx, cy, cw, ch) = self.clip_rect(x, y, w, h);
        self.paint_rect(cx, cy, cw, ch, filled, colour, false);
        Ok(())
    }
}

} // verus!
