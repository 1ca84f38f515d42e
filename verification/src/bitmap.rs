use vstd::prelude::*;
use crate::display::{rgb332_of, Colour};
use crate::graphics::{plot, plot_ok, Sprite};

verus! {

/// Whether `v` lies in the range of `i16`.
pub open spec fn in_i16(v: int) -> bool {
    i16::MIN <= v <= i16::MAX
}

/// The colour a bitmap entry stands for.
pub open spec fn bitmap_colour(c: u16) -> Colour {
    Colour(rgb332_of(c) as u8)
}

/// `pix` after the first `n` pixels of a run of `colour` going down from `(px, py)` are drawn.
pub open spec fn run_drawn(pix: Seq<Colour>, width: int, px: int, py: int, colour: Colour, n: int) -> Seq<Colour>
    decreases n,
{
    if n <= 0 {
        pix
    } else {
        plot(run_drawn(pix, width, px, py, colour, n - 1), width, px, py + ((n - 1) as u16 as i16), colour)
    }
}

/// Whether pixel `i` of a run going down from `(px, py)` stays within `i16` and can be plotted
/// in a buffer of `len` pixels with rows `width` long.
pub open spec fn run_pixel_ok(len: int, width: int, px: int, py: int, i: int) -> bool {
    &&& in_i16(py + (i as u16 as i16))
    &&& plot_ok(len, width, px, py + (i as u16 as i16))
}

/// Whether every pixel of a run of `n` pixels going down from `(px, py)` stays within `i16` and
/// can be plotted.
pub open spec fn run_ok(len: int, width: int, px: int, py: int, n: int) -> bool {
    forall|i: int| 0 <= i < n ==> #[trigger] run_pixel_ok(len, width, px, py, i)
}

/// How many rows of a column of `height` rows remain from row `oy`.
pub open spec fn rows_left(height: int, oy: int) -> int {
    if oy >= height {
        0
    } else {
        height - oy
    }
}

/// Drawing the rest of column `ox` of bitmap `bm` at `(x, y)` from entry `index` and row `oy`
/// onto `pix`, whose rows are `width` long: the index after the column and the pixels, or `None`
/// if the bitmap is malformed there, a coordinate overflows, or a pixel cannot be plotted.
///
/// A bitmap is a header of four entries (width, height, transparent colour, run marker) and then
/// its pixels column by column, each an RGB565 colour, except that an entry equal to the run
/// marker starts a run of three entries: the marker, a count and the colour of that many
/// pixels. Transparent pixels are not drawn.
pub open spec fn bitmap_column(bm: Seq<u16>, pix: Seq<Colour>, width: int, x: int, y: int, ox: int, index: int, oy: int) -> Option<(int, Seq<Colour>)>
    decreases rows_left(bm[1] as int, oy),
{
    if oy >= bm[1] {
        Some((index, pix))
    } else if !(0 <= index < bm.len()) {
        None
    } else {
        let px = x + (ox as u16 as i16);
        let py = y + (oy as u16 as i16);
        if bm[index] == bm[3] {
            if index + 2 >= bm.len() {
                None
            } else {
                let times = bm[index + 1] as int;
                let colour = bm[index + 2];
                if times == 0 || oy + times > 65535 {
                    None
                } else if colour != bm[2] && times > 0 && !(in_i16(px) && in_i16(py) && run_ok(pix.len() as int, width, px, py, times)) {
                    None
                } else {
                    let next = if colour != bm[2] { run_drawn(pix, width, px, py, bitmap_colour(colour), times) } else { pix };
                    bitmap_column(bm, next, width, x, y, ox, index + 3, oy + times)
                }
            }
        } else {
            let colour = bm[index];
            if colour != bm[2] && !(in_i16(px) && in_i16(py) && plot_ok(pix.len() as int, width, px, py)) {
                None
            } else {
                let next = if colour != bm[2] { plot(pix, width, px, py, bitmap_colour(colour)) } else { pix };
                bitmap_column(bm, next, width, x, y, ox, index + 1, oy + 1)
            }
        }
    }
}

/// Drawing columns `ox` onwards of bitmap `bm` from entry `index`: the pixels, or `None` on a
/// malformed bitmap or an overflowing coordinate.
pub open spec fn bitmap_columns(bm: Seq<u16>, pix: Seq<Colour>, width: int, x: int, y: int, ox: int, index: int) -> Option<Seq<Colour>>
    decreases bm[0] - ox,
{
    if ox >= bm[0] {
        Some(pix)
    } else {
        match bitmap_column(bm, pix, width, x, y, ox, index, 0) {
            Some((next_index, next)) => bitmap_columns(bm, next, width, x, y, ox + 1, next_index),
            None => None,
        }
    }
}

/// The pixels after drawing all of bitmap `bm` at `(x, y)`, or `None` if it cannot be drawn.
pub open spec fn bitmap_drawn(bm: Seq<u16>, pix: Seq<Colour>, width: int, x: int, y: int) -> Option<Seq<Colour>> {
    if bm.len() < 4 {
        None
    } else {
        bitmap_columns(bm, pix, width, x, y, 0, 4)
    }
}

impl Sprite {
    /// Draws a run-length encoded bitmap with its top-left corner at `(x, y)`. The bitmap must be
    /// well formed and lie within the coordinates of `i16`.
    #[verifier::rlimit(60)]
    pub fn draw_bitmap(&mut self, x: i16, y: i16, bitmap: &[u16])
        requires
            bitmap_drawn(bitmap@, old(self).data@, old(self).width as int, x as int, y as int) is Some,
        ensures
            Some(final(self).data@) == bitmap_drawn(bitmap@, old(self).data@, old(self).width as int, x as int, y as int),
            old(self).same_frame(&*final(self)),
    {
        let ghost w = self.width as int;
        let ghost bm = bitmap@;
        let ghost total = bitmap_drawn(bm, self.data@, w, x as int, y as int);
        let width = bitmap[0];
        let height = bitmap[1];
        let transparency = bitmap[2];
        let run_length = bitmap[3];
        let mut index: usize = 4;
        let mut ox: u16 = 0;
        while ox < width
            invariant
                bm == bitmap@,
                bm.len() >= 4,
                width == bm[0],
                height == bm[1],
                transparency == bm[2],
                run_length == bm[3],
                w == self.width,
                old(self).same_frame(&*self),
                total is Some,
                total == bitmap_columns(bm, self.data@, w, x as int, y as int, ox as int, index as int),
            decreases width - ox,
        {
            let ghost column = bitmap_column(bm, self.data@, w, x as int, y as int, ox as int, index as int, 0);
            assert(column is Some);
            let mut oy: u16 = 0;
            while oy < height
                invariant
                    bm == bitmap@,
                    bm.len() >= 4,
                    width == bm[0],
                    height == bm[1],
                    transparency == bm[2],
                    run_length == bm[3],
                    ox < width,
                    w == self.width,
                    old(self).same_frame(&*self),
                    column is Some,
                    column == bitmap_column(bm, self.data@, w, x as int, y as int, ox as int, index as int, oy as int),
                decreases rows_left(height as int, oy as int),
            {
                if bitmap[index] == run_length {
                    let times = bitmap[index + 1];
                    let colour = bitmap[index + 2];
                    if colour != transparency {
                        let ghost run_start = self.data@;
                        let px = x + ox as i16;
                        let py = y + oy as i16;
                        let mut i: u16 = 0;
                        proof {
                            lemma_run_len(run_start, w, px as int, py as int, bitmap_colour(colour), 0);
                        }
                        while i < times
                            invariant
                                i <= times,
                                times == bm[index + 1],
                                run_ok(run_start.len() as int, w, px as int, py as int, times as int),
                                w == self.width,
                                old(self).same_frame(&*self),
                                self.data@.len() == run_start.len(),
                                self.data@ == run_drawn(run_start, w, px as int, py as int, bitmap_colour(colour), i as int),
                            decreases times - i,
                        {
                            assert(run_pixel_ok(run_start.len() as int, w, px as int, py as int, i as int));
                            assert(in_i16(py + (i as int as u16 as i16)));
                            self.draw_pixel(px, py + i as i16, Colour::from_rgb565(colour));
                            proof {
                                lemma_run_len(run_start, w, px as int, py as int, bitmap_colour(colour), i + 1);
                            }
                            i = i + 1;
                        }
                    }
                    oy = oy + (times - 1);
                    index = index + 3;
                } else {
                    let colour = bitmap[index];
                    if colour != transparency {
                        self.draw_pixel(x + ox as i16, y + oy as i16, Colour::from_rgb565(colour));
                    }
                    index = index + 1;
                }
                oy = oy + 1;
            }
            ox = ox + 1;
        }
    }
}

proof fn lemma_run_len(pix: Seq<Colour>, width: int, px: int, py: int, colour: Colour, n: int)
    ensures
        run_drawn(pix, width, px, py, colour, n).len() == pix.len(),
    decreases n,
{
    if n > 0 {
        lemma_run_len(pix, width, px, py, colour, n - 1);
    }
}

proof fn lemma_column_frame(bm: Seq<u16>, p1: Seq<Colour>, p2: Seq<Colour>, width: int, x: int, y: int, ox: int, index: int, oy: int)
    requires
        bm.len() >= 4,
        p1.len() == p2.len(),
    ensures
        bitmap_column(bm, p1, width, x, y, ox, index, oy) is Some == bitmap_column(bm, p2, width, x, y, ox, index, oy) is Some,
        bitmap_column(bm, p1, width, x, y, ox, index, oy) is Some ==> {
            &&& bitmap_column(bm, p1, width, x, y, ox, index, oy).unwrap().0 == bitmap_column(bm, p2, width, x, y, ox, index, oy).unwrap().0
            &&& bitmap_column(bm, p1, width, x, y, ox, index, oy).unwrap().1.len() == p1.len()
            &&& bitmap_column(bm, p2, width, x, y, ox, index, oy).unwrap().1.len() == p2.len()
        },
    decreases rows_left(bm[1] as int, oy),
{
    if oy < bm[1] && 0 <= index < bm.len() {
        let px = x + (ox as u16 as i16);
        let py = y + (oy as u16 as i16);
        if bm[index] == bm[3] {
            if index + 2 < bm.len() {
                let times = bm[index + 1] as int;
                let colour = bm[index + 2];
                if !(times == 0 || oy + times > 65535) {
                    let n1 = if colour != bm[2] { run_drawn(p1, width, px, py, bitmap_colour(colour), times) } else { p1 };
                    let n2 = if colour != bm[2] { run_drawn(p2, width, px, py, bitmap_colour(colour), times) } else { p2 };
                    lemma_run_len(p1, width, px, py, bitmap_colour(colour), times);
                    lemma_run_len(p2, width, px, py, bitmap_colour(colour), times);
                    lemma_column_frame(bm, n1, n2, width, x, y, ox, index + 3, oy + times);
                }
            }
        } else {
            let colour = bm[index];
            let n1 = if colour != bm[2] { plot(p1, width, px, py, bitmap_colour(colour)) } else { p1 };
            let n2 = if colour != bm[2] { plot(p2, width, px, py, bitmap_colour(colour)) } else { p2 };
            lemma_column_frame(bm, n1, n2, width, x, y, ox, index + 1, oy + 1);
        }
    }
}

proof fn lemma_columns_frame(bm: Seq<u16>, p1: Seq<Colour>, p2: Seq<Colour>, width: int, x: int, y: int, ox: int, index: int)
    requires
        bm.len() >= 4,
        p1.len() == p2.len(),
    ensures
        bitmap_columns(bm, p1, width, x, y, ox, index) is Some == bitmap_columns(bm, p2, width, x, y, ox, index) is Some,
        bitmap_columns(bm, p1, width, x, y, ox, index) is Some ==> bitmap_columns(bm, p1, width, x, y, ox, index).unwrap().len() == p1.len(),
    decreases bm[0] - ox,
{
    if ox < bm[0] {
        lemma_column_frame(bm, p1, p2, width, x, y, ox, index, 0);
        let c1 = bitmap_column(bm, p1, width, x, y, ox, index, 0);
        let c2 = bitmap_column(bm, p2, width, x, y, ox, index, 0);
        if c1 is Some {
            lemma_columns_frame(bm, c1.unwrap().1, c2.unwrap().1, width, x, y, ox + 1, c1.unwrap().0);
        }
    }
}

/// Whether a bitmap can be drawn depends only on the bitmap, where it goes and the number of
/// pixels, not on the pixels under it; drawing it keeps the number of pixels.
pub proof fn lemma_bitmap_frame(bm: Seq<u16>, p1: Seq<Colour>, p2: Seq<Colour>, width: int, x: int, y: int)
    requires
        p1.len() == p2.len(),
    ensures
        bitmap_drawn(bm, p1, width, x, y) is Some == bitmap_drawn(bm, p2, width, x, y) is Some,
        bitmap_drawn(bm, p1, width, x, y) is Some ==> bitmap_drawn(bm, p1, width, x, y).unwrap().len() == p1.len(),
{
    if bm.len() >= 4 {
        lemma_columns_frame(bm, p1, p2, width, x, y, 0, 4);
    }
}

/// A table of run-length encoded bitmaps looked up by name.
pub struct Bitmaps {
    pub entries: Vec<(String, Vec<u16>)>,
}

/// The bitmap called `name` in `entries`: that of the first entry with that name.
pub open spec fn bitmap_named(entries: Seq<(String, Vec<u16>)>, name: Seq<char>) -> Option<Seq<u16>>
    decreases entries.len(),
{
    if entries.len() == 0 {
        None
    } else if entries[0].0@ == name {
        Some(entries[0].1@)
    } else {
        bitmap_named(entries.drop_first(), name)
    }
}

impl Bitmaps {
    /// The bitmap called `name`, if the table has one.
    pub fn lookup(&self, name: &String) -> (r: Option<&Vec<u16>>)
        ensures
            r is Some == bitmap_named(self.entries@, name@) is Some,
            r matches Some(v) ==> bitmap_named(self.entries@, name@) == Some(v@),
    {
        let ghost all = self.entries@;
        let mut i: usize = 0;
        assert(all.subrange(0, all.len() as int) =~= all);
        while i < self.entries.len()
            invariant
                all == self.entries@,
                i <= all.len(),
                bitmap_named(all, name@) == bitmap_named(all.subrange(i as int, all.len() as int), name@),
            decreases all.len() - i,
        {
            let ghost rest = all.subrange(i as int, all.len() as int);
            assert(rest[0] == all[i as int]);
            if self.entries[i].0 == *name {
                return Some(&self.entries[i].1);
            }
            assert(rest.drop_first() =~= all.subrange(i + 1, all.len() as int));
            i = i + 1;
        }
        None
    }
}

} // verus!
