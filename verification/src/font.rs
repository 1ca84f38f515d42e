use vstd::prelude::*;

verus! {

/// The image of one character of a font: `width` columns of `height` pixels, column by column,
/// two pixels to a byte (high nibble first), each nibble the pixel's opacity.
#[derive(Debug)]
pub struct AsciiFontGlyph {
    pub width: u8,
    pub height: u8,
    pub data: Vec<u8>,
}

/// The byte a character is looked up by, if it has one.
pub open spec fn char_byte(c: char) -> Option<u8> {
    if (c as u32) < 256 {
        Some((c as u32) as u8)
    } else {
        None
    }
}

/// The size of a text as it is measured line by line: the width of the current line, the
/// widest line so far and the height, for a font whose glyph widths are `widths` and whose lines
/// are `line_height` high.
pub open spec fn measure(widths: spec_fn(u8) -> Option<int>, line_height: int, s: Seq<char>) -> (int, int, int)
    decreases s.len(),
{
    if s.len() == 0 {
        (0, 0, line_height)
    } else {
        let (current, longest, height) = measure(widths, line_height, s.drop_last());
        let c = s.last();
        if c == '\n' {
            (0, longest, height + line_height)
        } else {
            match char_byte(c) {
                Some(b) => match widths(b) {
                    Some(w) => (current + w, if current + w > longest { current + w } else { longest }, height),
                    None => (current, longest, height),
                },
                None => (current, longest, height),
            }
        }
    }
}

/// A font of bitmap glyphs looked up by byte.
///
/// `glyph` is the glyph, if any, that the font has for a byte, as width, height and data.
pub trait AsciiFont {
    spec fn glyph(&self, c: u8) -> Option<(u8, u8, Seq<u8>)>;

    fn char_data(&self, c: u8) -> (r: Option<AsciiFontGlyph>)
        ensures
            r matches Some(g) ==> self.glyph(c) == Some((g.width, g.height, g.data@)),
            r is None ==> self.glyph(c) is None,
    ;

    /// The width and height of `string` drawn in this font: the widest of its lines and the
    /// height of a capital A times the number of lines. Characters the font lacks take no space.
    fn string_size(&self, string: &str) -> (r: (i16, i16))
        requires
            self.glyph(65) is Some,
            measure(|b: u8| glyph_width(self.glyph(b)), self.glyph(65).unwrap().1 as int, string@).1 <= u16::MAX,
            measure(|b: u8| glyph_width(self.glyph(b)), self.glyph(65).unwrap().1 as int, string@).2 <= u8::MAX,
        ensures
            r.0 == measure(|b: u8| glyph_width(self.glyph(b)), self.glyph(65).unwrap().1 as int, string@).1 as u16 as i16,
            r.1 == measure(|b: u8| glyph_width(self.glyph(b)), self.glyph(65).unwrap().1 as int, string@).2 as u8 as i16,
    {
        let ghost widths = |b: u8| glyph_width(self.glyph(b));
        let line_height = match self.char_data(65) {
            Some(g) => g.height,
            None => {
                return vstd::pervasive::unreached();
            },
        };
        let ghost lh = line_height as int;
        let ghost fin = measure(widths, lh, string@);
        let mut current_line_width: u16 = 0;
        let mut longest_line_width: u16 = 0;
        let mut height: u8 = line_height;
        let n = string.unicode_len();
        let mut i: usize = 0;
        while i < n
            invariant
                n == string@.len(),
                i <= n,
                lh == line_height,
                fin == measure(widths, lh, string@),
                fin.1 <= u16::MAX,
                fin.2 <= u8::MAX,
                widths == (|b: u8| glyph_width(self.glyph(b))),
                measure(widths, lh, string@.subrange(0, i as int)) == (
                    current_line_width as int,
                    longest_line_width as int,
                    height as int,
                ),
            decreases n - i,
        {
            let c = string.get_char(i);
            proof {
                assert(string@.subrange(0, i + 1).drop_last() == string@.subrange(0, i as int));
                lemma_measure_monotone(widths, lh, string@, i + 1);
            }
            if c != '\n' {
                let code = c as u32;
                if code < 256 {
                    if let Some(glyph) = self.char_data(code as u8) {
                        current_line_width = current_line_width + glyph.width as u16;
                        if current_line_width > longest_line_width {
                            longest_line_width = current_line_width;
                        }
                    }
                }
            } else {
                height = height + line_height;
                current_line_width = 0;
            }
            i = i + 1;
        }
        assert(string@.subrange(0, i as int) == string@);
        (longest_line_width as i16, height as i16)
    }
}

/// The width of a glyph, if there is one.
pub open spec fn glyph_width(g: Option<(u8, u8, Seq<u8>)>) -> Option<int> {
    match g {
        Some(t) => Some(t.0 as int),
        None => None,
    }
}

/// Measuring a longer prefix never gives a narrower or shorter text, and the current line is
/// never wider than the widest.
pub proof fn lemma_measure_monotone(widths: spec_fn(u8) -> Option<int>, line_height: int, s: Seq<char>, k: int)
    requires
        0 <= k <= s.len(),
        line_height >= 0,
        forall|b: u8| #[trigger] widths(b) matches Some(w) ==> w >= 0,
    ensures
        measure(widths, line_height, s.subrange(0, k)).0 <= measure(widths, line_height, s.subrange(0, k)).1,
        0 <= measure(widths, line_height, s.subrange(0, k)).0,
        measure(widths, line_height, s.subrange(0, k)).1 <= measure(widths, line_height, s).1,
        line_height <= measure(widths, line_height, s.subrange(0, k)).2 <= measure(widths, line_height, s).2,
    decreases s.len() - k,
{
    lemma_measure_current(widths, line_height, s.subrange(0, k));
    if k < s.len() {
        lemma_measure_monotone(widths, line_height, s, k + 1);
        assert(s.subrange(0, k + 1).drop_last() == s.subrange(0, k));
    } else {
        assert(s.subrange(0, k) == s);
    }
}

proof fn lemma_measure_current(widths: spec_fn(u8) -> Option<int>, line_height: int, s: Seq<char>)
    requires
        line_height >= 0,
        forall|b: u8| #[trigger] widths(b) matches Some(w) ==> w >= 0,
    ensures
        0 <= measure(widths, line_height, s).0 <= measure(widths, line_height, s).1,
        line_height <= measure(widths, line_height, s).2,
    decreases s.len(),
{
    if s.len() > 0 {
        lemma_measure_current(widths, line_height, s.drop_last());
    }
}

/// A font held as a table of glyphs indexed by byte; bytes beyond the table have no glyph.
pub struct TableFont {
    pub glyphs: Vec<Option<AsciiFontGlyph>>,
}

impl AsciiFont for TableFont {
    open spec fn glyph(&self, c: u8) -> Option<(u8, u8, Seq<u8>)> {
        if (c as int) < self.glyphs@.len() {
            match self.glyphs@[c as int] {
                Some(g) => Some((g.width, g.height, g.data@)),
                None => None,
            }
        } else {
            None
        }
    }

    fn char_data(&self, c: u8) -> (r: Option<AsciiFontGlyph>) {
        if (c as usize) < self.glyphs.len() {
            match &self.glyphs[c as usize] {
                Some(g) => {
                    let mut data: Vec<u8> = Vec::new();
                    let mut i: usize = 0;
                    while i < g.data.len()
                        invariant
                            i <= g.data@.len(),
                            data@ == g.data@.subrange(0, i as int),
                        decreases g.data@.len() - i,
                    {
                        data.push(g.data[i]);
                        i = i + 1;
                    }
                    assert(g.data@.subrange(0, i as int) == g.data@);
                    Some(AsciiFontGlyph { width: g.width, height: g.height, data })
                },
                None => None,
            }
        } else {
            None
        }
    }
}

} // verus!
