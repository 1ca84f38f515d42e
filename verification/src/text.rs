use vstd::prelude::*;
use crate::display::{interpolate_spec, Colour};
use crate::font::{glyph_width, measure, AsciiFont};
use crate::graphics::{pixel_index, plot_ok, reaches, Sprite};

verus! {

/// The opacity of pixel `k` of a glyph: the high nibble of byte `k / 2` for even `k`, the low one
/// for odd `k`.
pub open spec fn nibble(data: Seq<u8>, k: int) -> u8 {
    if k % 2 == 0 {
        data[k / 2] / 16
    } else {
        data[k / 2] % 16
    }
}

/// `pix` after the first `n` pixels of column `ox` of a glyph `h` pixels high are blended in
/// white onto a buffer with rows `width` long, the glyph's top-left corner at `(x, y)`.
/// Transparent pixels and pixels taken to lie outside the buffer are skipped; the others are
/// addressed as `plot` addresses them (and `char_ok` asks that the address lies in the buffer).
pub open spec fn glyph_column(pix: Seq<Colour>, width: int, x: int, y: int, data: Seq<u8>, h: int, ox: int, n: int) -> Seq<Colour>
    decreases n,
{
    if n <= 0 {
        pix
    } else {
        let prev = glyph_column(pix, width, x, y, data, h, ox, n - 1);
        let a = nibble(data, ox * h + n - 1);
        let i = pixel_index(width, x + ox, y + n - 1);
        if a == 0 || !reaches(prev.len() as int, width, x + ox, y + n - 1) || !(0 <= i < prev.len()) {
            prev
        } else {
            prev.update(i, Colour(interpolate_spec(prev[i].0, 0xFF, a)))
        }
    }
}

/// `pix` after the first `m` columns of a glyph are blended in.
pub open spec fn glyph_drawn(pix: Seq<Colour>, width: int, x: int, y: int, data: Seq<u8>, h: int, m: int) -> Seq<Colour>
    decreases m,
{
    if m <= 0 {
        pix
    } else {
        glyph_column(glyph_drawn(pix, width, x, y, data, h, m - 1), width, x, y, data, h, m - 1, h)
    }
}

/// The byte a character is drawn by: its code, truncated to eight bits.
pub open spec fn draw_byte(c: char) -> u8 {
    (c as u32) as u8
}

/// Whether a glyph of size `w` by `h` with `data` can be drawn with the cursor at `(x, y)`: its
/// data covers every pixel, and its coordinates and the cursor after it stay within `i16`.
pub open spec fn glyph_fits(x: int, y: int, w: int, h: int, data: Seq<u8>) -> bool {
    &&& (w * h + 1) / 2 <= data.len()
    &&& x + w - 1 <= 32767
    &&& x + w - 1 >= -32768
    &&& (h > 0 ==> y + h - 1 <= 32767)
}

/// Whether the pixel at column `ox` and row `oy` of a glyph `h` pixels high drawn at `(x, y)` can
/// be plotted in a buffer of `len` pixels with rows `width` long, if it is not transparent.
pub open spec fn glyph_pixel_ok(len: int, width: int, x: int, y: int, data: Seq<u8>, h: int, ox: int, oy: int) -> bool {
    nibble(data, ox * h + oy) != 0 ==> plot_ok(len, width, x + ox, y + oy)
}

/// Whether drawing `c` with the cursor at `(x, y)` in a buffer of `len` pixels with rows `width`
/// long works without a fault.
pub open spec fn char_ok<F: AsciiFont>(font: &F, width: int, len: int, x: int, y: int, c: char) -> bool {
    if c == '\n' {
        font.glyph(65) is Some && y + font.glyph(65).unwrap().1 <= 32767
    } else {
        font.glyph(draw_byte(c)) matches Some(g) ==> {
            &&& glyph_fits(x, y, g.0 as int, g.1 as int, g.2)
            &&& forall|ox: int, oy: int| 0 <= ox < g.0 && 0 <= oy < g.1 ==> #[trigger] glyph_pixel_ok(len, width, x, y, g.2, g.1 as int, ox, oy)
        }
    }
}

/// The cursor and pixels after drawing `c` with the cursor at `(x, y)`: a newline moves the
/// cursor to the start of the next line; a character the font has is blended in white and moves
/// the cursor one pixel short of its width; other characters change nothing.
pub open spec fn char_drawn<F: AsciiFont>(font: &F, width: int, state: (int, int, Seq<Colour>), c: char) -> (int, int, Seq<Colour>) {
    let (x, y, pix) = state;
    if c == '\n' {
        (0, y + font.glyph(65).unwrap().1, pix)
    } else {
        match font.glyph(draw_byte(c)) {
            Some(g) => (x + g.0 - 1, y, glyph_drawn(pix, width, x, y, g.2, g.1 as int, g.0 as int)),
            None => (x, y, pix),
        }
    }
}

/// The cursor and pixels after drawing the characters of `s` one by one.
pub open spec fn text_drawn<F: AsciiFont>(font: &F, width: int, state: (int, int, Seq<Colour>), s: Seq<char>) -> (int, int, Seq<Colour>)
    decreases s.len(),
{
    if s.len() == 0 {
        state
    } else {
        char_drawn(font, width, text_drawn(font, width, state, s.drop_last()), s.last())
    }
}

/// Whether drawing each character of `s` in turn works without an arithmetic fault.
pub open spec fn text_ok<F: AsciiFont>(font: &F, width: int, state: (int, int, Seq<Colour>), s: Seq<char>) -> bool
    decreases s.len(),
{
    if s.len() == 0 {
        true
    } else {
        let before = text_drawn(font, width, state, s.drop_last());
        text_ok(font, width, state, s.drop_last()) && char_ok(font, width, before.2.len() as int, before.0, before.1, s.last())
    }
}

proof fn lemma_pixel_in_glyph(ox: int, oy: int, w: int, h: int)
    requires
        0 <= ox < w,
        0 <= oy < h,
    ensures
        ox * h + oy < w * h,
        0 <= ox * h + oy,
        ox * h + h == (ox + 1) * h,
{
    assert(ox * h + oy < w * h) by (nonlinear_arith)
        requires 0 <= ox < w, 0 <= oy < h;
    assert(0 <= ox * h) by (nonlinear_arith)
        requires 0 <= ox, 0 <= h;
    assert(ox * h + h == (ox + 1) * h) by (nonlinear_arith);
}

impl Sprite {
    /// The state that text drawing works on: the cursor and the pixels.
    pub open spec fn text_state(&self) -> (int, int, Seq<Colour>) {
        (self.cursor_x as int, self.cursor_y as int, self.data@)
    }

    /// Moves the text cursor to `(x, y)`.
    pub fn set_cursor(&mut self, x: i16, y: i16)
        ensures
            final(self).cursor_x == x,
            final(self).cursor_y == y,
            final(self).width == old(self).width,
            final(self).height == old(self).height,
            final(self).data@ == old(self).data@,
    {
        self.cursor_x = x;
        self.cursor_y = y;
    }

    /// The text cursor.
    pub fn get_cursor(&self) -> (r: (i16, i16))
        ensures
            r == (self.cursor_x, self.cursor_y),
    {
        (self.cursor_x, self.cursor_y)
    }

    /// Draws a character in white at the text cursor and advances the cursor. A newline moves the
    /// cursor to the start of the next line, a capital A's height further down.
    #[verifier::rlimit(40)]
    pub fn draw_char<F: AsciiFont>(&mut self, font: &F, character: char)
        requires
            char_ok(font, old(self).width as int, old(self).data@.len() as int, old(self).cursor_x as int, old(self).cursor_y as int, character),
        ensures
            final(self).text_state() == char_drawn(font, old(self).width as int, old(self).text_state(), character),
            final(self).width == old(self).width,
            final(self).height == old(self).height,
    {
        let x = self.cursor_x;
        let y = self.cursor_y;
        if character == '\n' {
            let line_height = match font.char_data(65) {
                Some(g) => g.height,
                None => {
                    return vstd::pervasive::unreached();
                },
            };
            self.cursor_x = 0;
            self.cursor_y = self.cursor_y + line_height as i16;
            return;
        }
        let code = character as u32;
        let byte = #[verifier::truncate] (code as u8);
        let glyph = match font.char_data(byte) {
            Some(g) => g,
            None => {
                return;
            },
        };
        let ghost w = self.width as int;
        let ghost start = self.data@;
        let width = glyph.width;
        let height = glyph.height;
        let data_len = glyph.data.len();
        let mut lower_byte = false;
        let mut index: usize = 0;
        let ghost mut k: int = 0;
        let mut ox: u8 = 0;
        while ox < width
            invariant
                0 <= ox <= width,
                w == self.width,
                self.width == old(self).width,
                self.height == old(self).height,
                self.cursor_x == x,
                self.cursor_y == y,
                glyph_fits(x as int, y as int, width as int, height as int, glyph.data@),
                forall|a: int, b: int| 0 <= a < width && 0 <= b < height ==> #[trigger] glyph_pixel_ok(start.len() as int, w, x as int, y as int, glyph.data@, height as int, a, b),
                self.data@.len() == start.len(),
                data_len == glyph.data@.len(),
                k == ox * height,
                index == k / 2,
                lower_byte == (k % 2 == 1),
                self.data@ == glyph_drawn(start, w, x as int, y as int, glyph.data@, height as int, ox as int),
            decreases width - ox,
        {
            let ghost column_start = self.data@;
            let mut oy: u8 = 0;
            while oy < height
                invariant
                    0 <= ox < width,
                    0 <= oy <= height,
                    w == self.width,
                    self.width == old(self).width,
                    self.height == old(self).height,
                    self.cursor_x == x,
                    self.cursor_y == y,
                    glyph_fits(x as int, y as int, width as int, height as int, glyph.data@),
                    forall|a: int, b: int| 0 <= a < width && 0 <= b < height ==> #[trigger] glyph_pixel_ok(start.len() as int, w, x as int, y as int, glyph.data@, height as int, a, b),
                    self.data@.len() == start.len(),
                    data_len == glyph.data@.len(),
                    k == ox * height + oy,
                    index == k / 2,
                    lower_byte == (k % 2 == 1),
                    self.data@ == glyph_column(column_start, w, x as int, y as int, glyph.data@, height as int, ox as int, oy as int),
                decreases height - oy,
            {
                proof {
                    lemma_pixel_in_glyph(ox as int, oy as int, width as int, height as int);
                }
                let byte = glyph.data[index];
                let alpha: u8 = if lower_byte {
                    lower_byte = false;
                    index = index + 1;
                    proof {
                        assert(byte & 0x0Fu8 == byte % 16) by (bit_vector);
                    }
                    byte & 0x0F
                } else {
                    lower_byte = true;
                    proof {
                        assert((byte & 0xF0u8) >> 4u8 == byte / 16) by (bit_vector);
                    }
                    (byte & 0xF0) >> 4
                };
                proof {
                    assert(alpha == nibble(glyph.data@, k));
                    k = k + 1;
                }
                if alpha != 0 {
                    assert(glyph_pixel_ok(start.len() as int, w, x as int, y as int, glyph.data@, height as int, ox as int, oy as int));
                    let px = x + ox as i16;
                    let py = y + oy as i16;
                    if let Some(background) = self.try_pixel_immutable(px, py) {
                        let blended = background.interpolate_with_nibble(Colour::white(), alpha);
                        self.draw_pixel(px, py, blended);
                    }
                }
                oy = oy + 1;
            }
            proof {
                assert(ox * height + height == (ox + 1) * height) by (nonlinear_arith);
            }
            ox = ox + 1;
        }
        self.cursor_x = self.cursor_x + (width as i16 - 1);
    }

    /// Moves the text cursor to `(x, y)` and draws a character there.
    pub fn draw_char_at<F: AsciiFont>(&mut self, font: &F, x: i16, y: i16, character: char)
        requires
            char_ok(font, old(self).width as int, old(self).data@.len() as int, x as int, y as int, character),
        ensures
            final(self).text_state() == char_drawn(font, old(self).width as int, (x as int, y as int, old(self).data@), character),
            final(self).width == old(self).width,
            final(self).height == old(self).height,
    {
        self.set_cursor(x, y);
        self.draw_char(font, character);
    }

    /// Draws the characters of `s` one after another at the text cursor.
    pub fn print<F: AsciiFont>(&mut self, font: &F, s: &str)
        requires
            text_ok(font, old(self).width as int, old(self).text_state(), s@),
        ensures
            final(self).text_state() == text_drawn(font, old(self).width as int, old(self).text_state(), s@),
            final(self).width == old(self).width,
            final(self).height == old(self).height,
    {
        let ghost w = self.width as int;
        let ghost start = self.text_state();
        let n = s.unicode_len();
        let mut i: usize = 0;
        while i < n
            invariant
                n == s@.len(),
                i <= n,
                w == self.width,
                self.width == old(self).width,
                self.height == old(self).height,
                text_ok(font, w, start, s@),
                self.text_state() == text_drawn(font, w, start, s@.subrange(0, i as int)),
            decreases n - i,
        {
            proof {
                lemma_text_ok_prefix(font, w, start, s@, i + 1);
                assert(s@.subrange(0, i + 1).drop_last() == s@.subrange(0, i as int));
            }
            let c = s.get_char(i);
            self.draw_char(font, c);
            i = i + 1;
        }
        assert(s@.subrange(0, i as int) == s@);
    }

    /// Moves the text cursor to `(x, y)` and draws `s` there.
    pub fn print_at<F: AsciiFont>(&mut self, font: &F, x: i16, y: i16, s: &str)
        requires
            text_ok(font, old(self).width as int, (x as int, y as int, old(self).data@), s@),
        ensures
            final(self).text_state() == text_drawn(font, old(self).width as int, (x as int, y as int, old(self).data@), s@),
            final(self).width == old(self).width,
            final(self).height == old(self).height,
    {
        self.set_cursor(x, y);
        self.print(font, s);
    }
}

/// The width of `s` in `font` as `string_size` gives it.
pub open spec fn text_width<F: AsciiFont>(font: &F, s: Seq<char>) -> int {
    measure(|b: u8| glyph_width(font.glyph(b)), font.glyph(65).unwrap().1 as int, s).1 as u16 as i16 as int
}

/// Whether `string_size` can measure `s` in `font`.
pub open spec fn measurable<F: AsciiFont>(font: &F, s: Seq<char>) -> bool {
    &&& font.glyph(65) is Some
    &&& measure(|b: u8| glyph_width(font.glyph(b)), font.glyph(65).unwrap().1 as int, s).1 <= u16::MAX
    &&& measure(|b: u8| glyph_width(font.glyph(b)), font.glyph(65).unwrap().1 as int, s).2 <= u8::MAX
}

/// Half of `v`, rounded towards zero.
pub open spec fn half_towards_zero(v: int) -> int {
    if v >= 0 {
        v / 2
    } else {
        -((-v) / 2)
    }
}

/// How far right of `x` `print_centred` starts `s` to centre it in a width of `w`.
pub open spec fn centred_offset<F: AsciiFont>(font: &F, w: u16, s: Seq<char>) -> int {
    half_towards_zero(w as i16 - text_width(font, s))
}

impl Sprite {
    /// Draws `s` centred within the `w` pixels right of `x`, with its top at `y`.
    pub fn print_centred<F: AsciiFont>(&mut self, font: &F, x: i16, y: i16, w: u16, s: &str)
        requires
            measurable(font, s@),
            i16::MIN <= w as i16 - text_width(font, s@) <= i16::MAX,
            i16::MIN <= x + centred_offset(font, w, s@) <= i16::MAX,
            text_ok(font, old(self).width as int, (x + centred_offset(font, w, s@), y as int, old(self).data@), s@),
        ensures
            final(self).text_state() == text_drawn(
                font,
                old(self).width as int,
                (x + centred_offset(font, w, s@), y as int, old(self).data@),
                s@,
            ),
            final(self).width == old(self).width,
            final(self).height == old(self).height,
    {
        let (text_width, _) = font.string_size(s);
        let w16 = #[verifier::truncate] (w as i16);
        let diff = w16 - text_width;
        let x_offset = diff / 2;
        assert(x_offset == half_towards_zero(diff as int));
        self.print_at(font, x + x_offset, y, s);
    }
}

/// A text that can be drawn can be drawn up to any point.
pub proof fn lemma_text_ok_prefix<F: AsciiFont>(font: &F, width: int, state: (int, int, Seq<Colour>), s: Seq<char>, k: int)
    requires
        0 <= k <= s.len(),
        text_ok(font, width, state, s),
    ensures
        text_ok(font, width, state, s.subrange(0, k)),
    decreases s.len() - k,
{
    if k < s.len() {
        lemma_text_ok_prefix(font, width, state, s, k + 1);
        assert(s.subrange(0, k + 1).drop_last() == s.subrange(0, k));
    } else {
        assert(s.subrange(0, k) == s);
    }
}

proof fn lemma_glyph_column_len(pix: Seq<Colour>, width: int, x: int, y: int, data: Seq<u8>, h: int, ox: int, n: int)
    ensures
        glyph_column(pix, width, x, y, data, h, ox, n).len() == pix.len(),
    decreases n,
{
    if n > 0 {
        lemma_glyph_column_len(pix, width, x, y, data, h, ox, n - 1);
    }
}

proof fn lemma_glyph_drawn_len(pix: Seq<Colour>, width: int, x: int, y: int, data: Seq<u8>, h: int, m: int)
    ensures
        glyph_drawn(pix, width, x, y, data, h, m).len() == pix.len(),
    decreases m,
{
    if m > 0 {
        lemma_glyph_drawn_len(pix, width, x, y, data, h, m - 1);
        lemma_glyph_column_len(glyph_drawn(pix, width, x, y, data, h, m - 1), width, x, y, data, h, m - 1, h);
    }
}

/// Drawing text changes pixels but never the number of them.
pub proof fn lemma_text_drawn_len<F: AsciiFont>(font: &F, width: int, state: (int, int, Seq<Colour>), s: Seq<char>)
    ensures
        text_drawn(font, width, state, s).2.len() == state.2.len(),
    decreases s.len(),
{
    if s.len() > 0 {
        lemma_text_drawn_len(font, width, state, s.drop_last());
        let before = text_drawn(font, width, state, s.drop_last());
        let c = s.last();
        if c != '\n' {
            if let Some(g) = font.glyph(draw_byte(c)) {
                lemma_glyph_drawn_len(before.2, width, before.0, before.1, g.2, g.1 as int, g.0 as int);
            }
        }
    }
}

/// Where text leaves the cursor, and whether it can be drawn, do not depend on the pixels it is
/// drawn onto.
pub proof fn lemma_text_ok_any_pixels<F: AsciiFont>(font: &F, width: int, x: int, y: int, p1: Seq<Colour>, p2: Seq<Colour>, s: Seq<char>)
    requires
        p1.len() == p2.len(),
    ensures
        text_ok(font, width, (x, y, p1), s) == text_ok(font, width, (x, y, p2), s),
        text_drawn(font, width, (x, y, p1), s).0 == text_drawn(font, width, (x, y, p2), s).0,
        text_drawn(font, width, (x, y, p1), s).1 == text_drawn(font, width, (x, y, p2), s).1,
    decreases s.len(),
{
    if s.len() > 0 {
        lemma_text_ok_any_pixels(font, width, x, y, p1, p2, s.drop_last());
        lemma_text_drawn_len(font, width, (x, y, p1), s.drop_last());
        lemma_text_drawn_len(font, width, (x, y, p2), s.drop_last());
    }
}


/// Printing a text made of two parts draws as printing the first part and then the second from
/// where the first left the cursor; printing nothing changes nothing.
pub proof fn lemma_text_drawn_concat<F: AsciiFont>(font: &F, width: int, state: (int, int, Seq<Colour>), a: Seq<char>, b: Seq<char>)
    ensures
        text_drawn(font, width, state, a + b) == text_drawn(font, width, text_drawn(font, width, state, a), b),
        text_drawn(font, width, state, Seq::empty()) == state,
    decreases b.len(),
{
    if b.len() == 0 {
        assert(a + b =~= a);
    } else {
        lemma_text_drawn_concat(font, width, state, a, b.drop_last());
        assert((a + b).drop_last() =~= a + b.drop_last());
        assert((a + b).last() == b.last());
    }
}

} // verus!
