use vstd::prelude::*;
use crate::display::{Colour, ShapeFill};
use crate::font::{glyph_width, measure, AsciiFont};
use crate::graphics::{clip_ok, line_ok, line_painted, rect_painted, Sprite};
use crate::input::{ButtonInput, OSInput};
use crate::saturating::SaturatingInto;
use crate::text::{char_drawn, char_ok, text_drawn, text_ok};
use crate::wrap::{height_of, push_char, sizable, width_of};

verus! {

/// A width and a height, in pixels.
#[derive(PartialEq, Eq, Clone, Copy, Debug, Structural)]
pub struct Area {
    pub width: u64,
    pub height: u64,
}

/// A point relative to the top-left corner of a viewport; it may lie outside it.
#[derive(PartialEq, Eq, Clone, Copy, Debug, Structural)]
pub struct ViewportPoint {
    pub x: i64,
    pub y: i64,
}

/// A function that an expression can call.
#[derive(PartialEq, Eq, Clone, Copy, Debug, Structural)]
pub enum Function {
    Sine,
    Cosine,
    GreatestCommonDenominator,
}

/// The text shown for a function's name.
pub open spec fn function_name(f: Function) -> Seq<char> {
    match f {
        Function::Sine => seq!['s', 'i', 'n'],
        Function::Cosine => seq!['c', 'o', 's'],
        Function::GreatestCommonDenominator => seq!['g', 'c', 'd'],
    }
}

impl Function {
    /// The text shown for this function's name.
    pub fn render_name(&self) -> (r: &'static str)
        ensures
            r@ == function_name(*self),
    {
        match self {
            Function::Sine => {
                proof {
                    reveal_strlit("sin");
                }
                "sin"
            },
            Function::Cosine => {
                proof {
                    reveal_strlit("cos");
                }
                "cos"
            },
            Function::GreatestCommonDenominator => {
                proof {
                    reveal_strlit("gcd");
                }
                "gcd"
            },
        }
    }
}

/// One element of a laid-out expression.
#[derive(PartialEq, Eq, Clone, Copy, Debug, Structural)]
pub enum Glyph {
    Digit { number: u8 },
    Point,
    FunctionName { function: Function },
    Comma,
    Variable { name: char },
    Add,
    Subtract,
    Multiply,
    Divide,
    Fraction { inner_width: u64 },
    LeftParenthesis { inner_height: u64 },
    RightParenthesis { inner_height: u64 },
    Sqrt { inner_area: Area },
    Cursor { height: u64 },
    Placeholder,
}

/// A glyph with the size it was laid out at, and how many steps smaller than normal it is drawn.
#[derive(PartialEq, Eq, Clone, Copy, Debug, Structural)]
pub struct SizedGlyph {
    pub glyph: Glyph,
    pub area: Area,
    pub size_reduction_level: u32,
}

/// How much of a glyph lies within the viewport.
#[derive(PartialEq, Eq, Clone, Copy, Debug, Structural)]
pub enum ViewportVisibility {
    Visible,
    Clipped { invisible: bool, top_clip: u64, bottom_clip: u64, left_clip: u64, right_clip: u64 },
}

/// A sized glyph at a point of the viewport.
#[derive(PartialEq, Eq, Clone, Copy, Debug, Structural)]
pub struct ViewportGlyph {
    pub glyph: SizedGlyph,
    pub point: ViewportPoint,
    pub visibility: ViewportVisibility,
}

/// The shortest that parentheses are drawn.
pub const MINIMUM_PAREN_HEIGHT: u64 = 16;

/// `v` clamped to the range of `i16`.
pub open spec fn clamp_i16(v: int) -> int {
    if v > 32767 {
        32767
    } else if v < -32768 {
        -32768
    } else {
        v
    }
}

/// `v` cut down to its low 16 bits, read as an `i16`.
pub open spec fn wrap_i16(v: u64) -> int {
    (v as i16) as int
}

/// The size `string_size` gives for `s` in `font`.
pub open spec fn text_area<F: AsciiFont>(font: &F, s: Seq<char>) -> Area {
    Area { width: width_of(font, s) as u64, height: height_of(font, s) as u64 }
}

/// The size a glyph takes up when drawn in `font`: most are the size of the digit 0, a point half
/// as wide, names and variables the size of their text, and lines, parentheses and square roots
/// the size of what they surround plus their own strokes.
pub open spec fn glyph_size<F: AsciiFont>(font: &F, glyph: Glyph) -> Area {
    let digit = text_area(font, seq!['0']);
    match glyph {
        Glyph::Cursor { height } => Area { width: 0, height },
        Glyph::Variable { name } => text_area(font, seq![name]),
        Glyph::Point => Area { width: digit.width / 2, height: digit.height },
        Glyph::Fraction { inner_width } => Area { width: inner_width, height: 1 },
        Glyph::LeftParenthesis { inner_height } => Area { width: 5, height: paren_extent(inner_height) },
        Glyph::RightParenthesis { inner_height } => Area { width: 5, height: paren_extent(inner_height) },
        Glyph::Sqrt { inner_area } => Area {
            width: (inner_area.width + 14) as u64,
            height: (inner_area.height + 5) as u64,
        },
        Glyph::FunctionName { function } => text_area(font, function_name(function)),
        _ => digit,
    }
}

/// The height of parentheses around contents `inner_height` high.
pub open spec fn paren_extent(inner_height: u64) -> u64 {
    if inner_height > MINIMUM_PAREN_HEIGHT {
        inner_height
    } else {
        MINIMUM_PAREN_HEIGHT
    }
}

/// Whether `glyph` can be measured in `font` without a fault.
pub open spec fn size_ok<F: AsciiFont>(font: &F, glyph: Glyph) -> bool {
    &&& font.glyph(65) is Some
    &&& glyph matches Glyph::Variable { name } ==> sizable(font, seq![name])
    &&& glyph matches Glyph::Sqrt { inner_area } ==> inner_area.width + 14 <= u64::MAX
        && inner_area.height + 5 <= u64::MAX
}

/// The glyph and point that are drawn for a glyph in a viewport: nothing for one clipped out of
/// sight, and for a fraction line the part left once its clipped ends are cut off, moved to the
/// viewport's left edge when its left end was cut.
pub open spec fn visible_glyph(g: ViewportGlyph) -> Option<(Glyph, ViewportPoint)> {
    match g.visibility {
        ViewportVisibility::Visible => Some((g.glyph.glyph, g.point)),
        ViewportVisibility::Clipped { invisible, left_clip, right_clip, .. } => {
            if invisible {
                None
            } else {
                match g.glyph.glyph {
                    Glyph::Fraction { inner_width } => {
                        let w1 = if left_clip > 0 { inner_width - left_clip } else { inner_width as int };
                        let x = if left_clip > 0 { 0 } else { g.point.x };
                        let w2 = if right_clip > 0 { w1 - right_clip } else { w1 };
                        Some((Glyph::Fraction { inner_width: w2 as u64 }, ViewportPoint { x, y: g.point.y }))
                    },
                    _ => Some((g.glyph.glyph, g.point)),
                }
            }
        },
    }
}

/// Whether the clipped ends of a fraction line are no longer than the line.
pub open spec fn clips_ok(g: ViewportGlyph) -> bool {
    match g.visibility {
        ViewportVisibility::Clipped { invisible, left_clip, right_clip, .. } => {
            !invisible ==> match g.glyph.glyph {
                Glyph::Fraction { inner_width } => {
                    &&& left_clip <= inner_width
                    &&& right_clip <= (if left_clip > 0 { inner_width - left_clip } else { inner_width as int })
                },
                _ => true,
            }
        },
        _ => true,
    }
}

/// The pixels after a straight white line is drawn, with the cursor left where it was.
pub open spec fn stroke(width: int, state: (int, int, Seq<Colour>), x1: int, y1: int, x2: int, y2: int) -> (int, int, Seq<Colour>) {
    (state.0, state.1, line_painted(state.2, width, x1, y1, x2, y2, Colour(0xFF)))
}

/// A parenthesis `height` high at `(x, y)`: short strokes at the ends at column `x + outer`, longer
/// ones next to them at `x + 2`, and the long middle stroke at `x + inner`.
pub open spec fn paren_drawn(width: int, state: (int, int, Seq<Colour>), x: int, y: int, height: int, outer: int, inner: int) -> (int, int, Seq<Colour>) {
    let s1 = stroke(width, state, x + outer, y, x + outer, y + 1);
    let s2 = stroke(width, s1, x + 2, y + 2, x + 2, y + 6);
    let s3 = stroke(width, s2, x + inner, y + 7, x + inner, y + height - 8);
    let s4 = stroke(width, s3, x + outer, y + height - 2, x + outer, y + height - 1);
    stroke(width, s4, x + 2, y + height - 7, x + 2, y + height - 3)
}

/// The height parentheses are drawn at, in pixels.
pub open spec fn paren_height(inner_height: u64) -> int {
    clamp_i16(paren_extent(inner_height) as int)
}

/// The character a digit glyph is drawn as.
pub open spec fn digit_char(number: u8) -> char {
    ((number + 48) as u8) as char
}

/// The cursor and pixels after `glyph` is drawn at `(x, y)` on a display `width` by `height`:
/// a character or a name as text, lines and the square root's straight strokes in white, and a
/// placeholder as a grey box 4 pixels inside the size of the digit 0. The square root's two
/// slanted strokes are not part of it (see `slanted_strokes`).
pub open spec fn glyph_drawn<F: AsciiFont>(font: &F, width: int, height: int, state: (int, int, Seq<Colour>), glyph: Glyph, x: int, y: int) -> (int, int, Seq<Colour>) {
    match glyph {
        Glyph::Digit { number } => char_drawn(font, width, (x, y, state.2), digit_char(number)),
        Glyph::Point => char_drawn(font, width, (x, y, state.2), '.'),
        Glyph::Comma => char_drawn(font, width, (x, y, state.2), ','),
        Glyph::Variable { name } => char_drawn(font, width, (x, y, state.2), name),
        Glyph::Add => char_drawn(font, width, (x, y, state.2), '+'),
        Glyph::Subtract => char_drawn(font, width, (x, y, state.2), '-'),
        Glyph::Multiply => char_drawn(font, width, (x, y, state.2), '*'),
        Glyph::Divide => char_drawn(font, width, (x, y, state.2), '/'),
        Glyph::Fraction { inner_width } => stroke(width, state, x, y, x + clamp_i16(inner_width as int), y),
        Glyph::Cursor { height: h } => stroke(width, state, x, y, x, y + clamp_i16(h as int)),
        Glyph::Placeholder => {
            let g = font.glyph(48).unwrap();
            (state.0, state.1, rect_painted(state.2, width, height, x + 4, y + 4, g.0 - 8, g.1 - 8, Colour(0x24), true))
        },
        Glyph::LeftParenthesis { inner_height } => paren_drawn(width, state, x, y, paren_height(inner_height), 3, 1),
        Glyph::RightParenthesis { inner_height } => paren_drawn(width, state, x, y, paren_height(inner_height), 1, 3),
        Glyph::Sqrt { inner_area } => {
            let w = wrap_i16(inner_area.width);
            stroke(width, stroke(width, state, x + 7, y, x + w + 10, y), x + w + 10, y, x + w + 10, y + 4)
        },
        Glyph::FunctionName { function } => text_drawn(font, width, (x, y, state.2), function_name(function)),
    }
}

/// Whether the square root's strokes at `(x, y)` around contents `w` by `h` stay within `i16`.
pub open spec fn sqrt_ok(x: int, y: int, w: int, h: int) -> bool {
    &&& -32768 <= y + h <= 32767
    &&& -32768 <= y + h - 3
    &&& y + h + 1 <= 32767
    &&& -32768 <= x + w <= 32767
    &&& x + w + 10 <= 32767
    &&& x + 7 <= 32767
    &&& y + 4 <= 32767
}

/// Whether the strokes of a parenthesis `height` high at `(x, y)` can be drawn in a buffer of
/// `len` pixels with rows `width` long.
pub open spec fn paren_ok(len: int, width: int, x: int, y: int, height: int, outer: int, inner: int) -> bool {
    &&& line_ok(len, width, x + outer, y, x + outer, y + 1)
    &&& line_ok(len, width, x + 2, y + 2, x + 2, y + 6)
    &&& line_ok(len, width, x + inner, y + 7, x + inner, y + height - 8)
    &&& line_ok(len, width, x + outer, y + height - 2, x + outer, y + height - 1)
    &&& line_ok(len, width, x + 2, y + height - 7, x + 2, y + height - 3)
}

/// Whether `glyph` can be drawn at `(x, y)` on `sprite` in `font` without a fault.
pub open spec fn glyph_draw_ok<F: AsciiFont>(font: &F, sprite: Sprite, glyph: Glyph, x: int, y: int) -> bool {
    let w = sprite.width as int;
    let n = sprite.data@.len() as int;
    match glyph {
        Glyph::Digit { number } => number + 48 <= 255 && char_ok(font, w, n, x, y, digit_char(number)),
        Glyph::Point => char_ok(font, w, n, x, y, '.'),
        Glyph::Comma => char_ok(font, w, n, x, y, ','),
        Glyph::Variable { name } => char_ok(font, w, n, x, y, name),
        Glyph::Add => char_ok(font, w, n, x, y, '+'),
        Glyph::Subtract => char_ok(font, w, n, x, y, '-'),
        Glyph::Multiply => char_ok(font, w, n, x, y, '*'),
        Glyph::Divide => char_ok(font, w, n, x, y, '/'),
        Glyph::Fraction { inner_width } => {
            &&& x + clamp_i16(inner_width as int) <= 32767
            &&& line_ok(n, w, x, y, x + clamp_i16(inner_width as int), y)
        },
        Glyph::Cursor { height } => {
            &&& y + clamp_i16(height as int) <= 32767
            &&& line_ok(n, w, x, y, x, y + clamp_i16(height as int))
        },
        Glyph::Placeholder => match font.glyph(48) {
            Some(g) => {
                &&& g.0 >= 8
                &&& g.1 >= 8
                &&& x + 4 <= 32767
                &&& y + 4 <= 32767
                &&& sprite.wf()
                &&& clip_ok(x + 4, g.0 - 8, sprite.width as int)
                &&& clip_ok(y + 4, g.1 - 8, sprite.height as int)
            },
            None => false,
        },
        Glyph::LeftParenthesis { inner_height } => {
            &&& x + 3 <= 32767
            &&& y + paren_height(inner_height) <= 32767
            &&& paren_ok(n, w, x, y, paren_height(inner_height), 3, 1)
        },
        Glyph::RightParenthesis { inner_height } => {
            &&& x + 3 <= 32767
            &&& y + paren_height(inner_height) <= 32767
            &&& paren_ok(n, w, x, y, paren_height(inner_height), 1, 3)
        },
        Glyph::Sqrt { inner_area } => {
            let sw = wrap_i16(inner_area.width);
            &&& sqrt_ok(x, y, sw, wrap_i16(inner_area.height))
            &&& line_ok(n, w, x + 7, y, x + sw + 10, y)
            &&& line_ok(n, w, x + sw + 10, y, x + sw + 10, y + 4)
        },
        Glyph::FunctionName { function } => text_ok(font, sprite.width as int, (x, y, sprite.data@), function_name(function)),
    }
}

/// Whether a glyph in a viewport can be drawn on `sprite` in `font` without a fault.
pub open spec fn draw_ok<F: AsciiFont>(font: &F, sprite: Sprite, g: ViewportGlyph) -> bool {
    &&& clips_ok(g)
    &&& match visible_glyph(g) {
        Some((glyph, p)) => glyph_draw_ok(font, sprite, glyph, clamp_i16(p.x as int), clamp_i16(p.y as int)),
        None => true,
    }
}

/// The cursor and pixels of `sprite` after a glyph in a viewport is drawn on it in `font`.
pub open spec fn viewport_glyph_drawn<F: AsciiFont>(font: &F, sprite: Sprite, g: ViewportGlyph) -> (int, int, Seq<Colour>) {
    match visible_glyph(g) {
        Some((glyph, p)) => glyph_drawn(
            font,
            sprite.width as int,
            sprite.height as int,
            sprite.text_state(),
            glyph,
            clamp_i16(p.x as int),
            clamp_i16(p.y as int),
        ),
        None => sprite.text_state(),
    }
}

/// The slanted strokes of a square root glyph in a viewport, as `(x1, y1, x2, y2)`: the short
/// one rising to the bottom of the long one, and the long one rising to the top line. Other
/// glyphs have none.
pub open spec fn sqrt_slants(g: ViewportGlyph) -> Seq<(i16, i16, i16, i16)> {
    match visible_glyph(g) {
        Some((Glyph::Sqrt { inner_area }, p)) => {
            let x = clamp_i16(p.x as int);
            let y = clamp_i16(p.y as int);
            let h = wrap_i16(inner_area.height);
            seq![
                (x as i16, (y + h - 3) as i16, (x + 4) as i16, (y + h + 1) as i16),
                ((x + 4) as i16, (y + h + 1) as i16, (x + 7) as i16, y as i16),
            ]
        },
        _ => seq![],
    }
}

/// Measuring a text of a few characters and no line breaks: each character adds at most a
/// glyph's width, and the height stays one line.
proof fn lemma_measure_line(widths: spec_fn(u8) -> Option<int>, line_height: int, s: Seq<char>)
    requires
        forall|b: u8| #[trigger] widths(b) matches Some(w) ==> 0 <= w <= 255,
        forall|i: int| 0 <= i < s.len() ==> s[i] != '\n',
    ensures
        0 <= measure(widths, line_height, s).0 <= 255 * s.len(),
        0 <= measure(widths, line_height, s).1 <= 255 * s.len(),
        measure(widths, line_height, s).2 == line_height,
    decreases s.len(),
{
    if s.len() > 0 {
        assert forall|i: int| 0 <= i < s.drop_last().len() implies s.drop_last()[i] != '\n' by {
            assert(s.drop_last()[i] == s[i]);
        }
        lemma_measure_line(widths, line_height, s.drop_last());
    }
}

/// A text of at most three characters and no line breaks can be measured in a font that has a
/// capital A.
proof fn lemma_short_sizable<F: AsciiFont>(font: &F, s: Seq<char>)
    requires
        font.glyph(65) is Some,
        s.len() <= 3,
        forall|i: int| 0 <= i < s.len() ==> s[i] != '\n',
    ensures
        sizable(font, s),
{
    let widths = |b: u8| glyph_width(font.glyph(b));
    assert forall|b: u8| #[trigger] widths(b) is Some implies 0 <= widths(b).unwrap() <= 255 by {}
    lemma_measure_line(widths, font.glyph(65).unwrap().1 as int, s);
}

/// Draws the glyphs of laid-out expressions onto a sprite.
pub struct RbopSpriteRenderer {
    pub sprite: Option<Sprite>,
}

impl RbopSpriteRenderer {
    /// A renderer with no sprite to draw on yet.
    pub fn new() -> (r: Self)
        ensures
            r.sprite is None,
    {
        RbopSpriteRenderer { sprite: None }
    }

    /// The space between a square root's contents and its strokes.
    pub fn square_root_padding(&self) -> (r: u64)
        ensures
            r == 5,
    {
        5
    }

    /// Measures `glyph`: in `small_font` when it is drawn smaller than normal, else in `font`.
    pub fn size<F: AsciiFont>(&self, font: &F, small_font: &F, glyph: Glyph, size_reduction_level: u32) -> (r: Area)
        requires
            size_ok(if size_reduction_level > 0 { small_font } else { font }, glyph),
        ensures
            r == glyph_size(if size_reduction_level > 0 { small_font } else { font }, glyph),
    {
        let f = if size_reduction_level > 0 { small_font } else { font };
        let zero = "0";
        proof {
            reveal_strlit("0");
            assert(zero@ =~= seq!['0']);
            lemma_short_sizable(f, seq!['0']);
        }
        let (digit_width, digit_height) = f.string_size(zero);
        let digit = Area { width: #[verifier::truncate] (digit_width as u64), height: #[verifier::truncate] (digit_height as u64) };
        match glyph {
            Glyph::Cursor { height } => Area { width: 0, height },
            Glyph::Variable { name } => {
                let mut text = String::new();
                push_char(&mut text, name);
                assert(text@ =~= seq![name]);
                let (w, h) = f.string_size(text.as_str());
                Area { width: #[verifier::truncate] (w as u64), height: #[verifier::truncate] (h as u64) }
            },
            Glyph::Point => Area { width: digit.width / 2, height: digit.height },
            Glyph::Fraction { inner_width } => Area { width: inner_width, height: 1 },
            Glyph::LeftParenthesis { inner_height } => Area {
                width: 5,
                height: if inner_height > MINIMUM_PAREN_HEIGHT { inner_height } else { MINIMUM_PAREN_HEIGHT },
            },
            Glyph::RightParenthesis { inner_height } => Area {
                width: 5,
                height: if inner_height > MINIMUM_PAREN_HEIGHT { inner_height } else { MINIMUM_PAREN_HEIGHT },
            },
            Glyph::Sqrt { inner_area } => Area { width: inner_area.width + 14, height: inner_area.height + 5 },
            Glyph::FunctionName { function } => {
                let name = function.render_name();
                proof {
                    lemma_short_sizable(f, function_name(function));
                }
                let (w, h) = f.string_size(name);
                Area { width: #[verifier::truncate] (w as u64), height: #[verifier::truncate] (h as u64) }
            },
            _ => digit,
        }
    }
    /// The glyph and point that `draw` draws for a glyph in a viewport, if any.
    fn visible(g: &ViewportGlyph) -> (r: Option<(Glyph, ViewportPoint)>)
        requires
            clips_ok(*g),
        ensures
            r == visible_glyph(*g),
    {
        match g.visibility {
            ViewportVisibility::Visible => Some((g.glyph.glyph, g.point)),
            ViewportVisibility::Clipped { invisible, left_clip, right_clip, .. } => {
                if invisible {
                    return None;
                }
                match g.glyph.glyph {
                    Glyph::Fraction { inner_width } => {
                        let mut width = inner_width;
                        let mut x = g.point.x;
                        if left_clip > 0 {
                            width = width - left_clip;
                            x = 0;
                        }
                        if right_clip > 0 {
                            width = width - right_clip;
                        }
                        Some((Glyph::Fraction { inner_width: width }, ViewportPoint { x, y: g.point.y }))
                    },
                    _ => Some((g.glyph.glyph, g.point)),
                }
            },
        }
    }

    /// The slanted strokes of `glyph`, as `(x1, y1, x2, y2)`. They are drawn anti-aliased, which
    /// needs floating point, before `draw` draws the rest of the glyph: a visible square root has
    /// two, other glyphs none.
    pub fn slanted_strokes(&self, glyph: &ViewportGlyph) -> (r: Vec<(i16, i16, i16, i16)>)
        requires
            clips_ok(*glyph),
            visible_glyph(*glyph) matches Some((Glyph::Sqrt { inner_area }, p)) ==> sqrt_ok(
                clamp_i16(p.x as int),
                clamp_i16(p.y as int),
                wrap_i16(inner_area.width),
                wrap_i16(inner_area.height),
            ),
        ensures
            r@ == sqrt_slants(*glyph),
    {
        let (g, point) = match Self::visible(glyph) {
            Some(v) => v,
            None => {
                return Vec::new();
            },
        };
        match g {
            Glyph::Sqrt { inner_area } => {
                let x: i16 = point.x.saturating_into();
                let y: i16 = point.y.saturating_into();
                let h = #[verifier::truncate] (inner_area.height as i16);
                vec![(x, y + h - 3, x + 4, y + h + 1), (x + 4, y + h + 1, x + 7, y)]
            },
            _ => Vec::new(),
        }
    }

    /// Draws a parenthesis `paren_height(inner_height)` high at `(x, y)`, its outer strokes in
    /// column `x + outer` and its middle stroke in column `x + inner`.
    fn draw_paren(sprite: &mut Sprite, x: i16, y: i16, inner_height: u64, outer: i16, inner: i16)
        requires
            x + 3 <= 32767,
            y + paren_height(inner_height) <= 32767,
            (outer == 3 && inner == 1) || (outer == 1 && inner == 3),
            paren_ok(old(sprite).data@.len() as int, old(sprite).width as int, x as int, y as int, paren_height(inner_height), outer as int, inner as int),
        ensures
            final(sprite).text_state() == paren_drawn(
                old(sprite).width as int,
                old(sprite).text_state(),
                x as int,
                y as int,
                paren_height(inner_height),
                outer as int,
                inner as int,
            ),
            final(sprite).width == old(sprite).width,
            final(sprite).height == old(sprite).height,
    {
        let extent = if inner_height > MINIMUM_PAREN_HEIGHT { inner_height } else { MINIMUM_PAREN_HEIGHT };
        let h: i16 = extent.saturating_into();
        let white = Colour::white();
        sprite.draw_line(x + outer, y, x + outer, y + 1, white);
        sprite.draw_line(x + 2, y + 2, x + 2, y + 6, white);
        sprite.draw_line(x + inner, y + 7, x + inner, y + h - 8, white);
        sprite.draw_line(x + outer, y + h - 2, x + outer, y + h - 1, white);
        sprite.draw_line(x + 2, y + h - 7, x + 2, y + h - 3, white);
    }

    /// Draws a glyph in a viewport onto the sprite: in `small_font` when it is drawn smaller than
    /// normal, else in `font`. A glyph clipped out of sight is not drawn, and a clipped fraction
    /// line is drawn shortened. The square root's slanted strokes are left to the caller (see
    /// `slanted_strokes`).
    pub fn draw<F: AsciiFont>(&mut self, font: &F, small_font: &F, glyph: ViewportGlyph)
        requires
            old(self).sprite is Some,
            draw_ok(
                if glyph.glyph.size_reduction_level > 0 { small_font } else { font },
                old(self).sprite.unwrap(),
                glyph,
            ),
        ensures
            final(self).sprite is Some,
            final(self).sprite.unwrap().width == old(self).sprite.unwrap().width,
            final(self).sprite.unwrap().height == old(self).sprite.unwrap().height,
            final(self).sprite.unwrap().text_state() == viewport_glyph_drawn(
                if glyph.glyph.size_reduction_level > 0 { small_font } else { font },
                old(self).sprite.unwrap(),
                glyph,
            ),
    {
        let (g, point) = match Self::visible(&glyph) {
            Some(v) => v,
            None => {
                return;
            },
        };
        let f = if glyph.glyph.size_reduction_level > 0 { small_font } else { font };
        let x: i16 = point.x.saturating_into();
        let y: i16 = point.y.saturating_into();
        let mut sprite = match self.sprite.take() {
            Some(s) => s,
            None => {
                return vstd::pervasive::unreached();
            },
        };
        let white = Colour::white();
        match g {
            Glyph::Digit { number } => sprite.draw_char_at(f, x, y, (number + 48u8) as char),
            Glyph::Point => sprite.draw_char_at(f, x, y, '.'),
            Glyph::Comma => sprite.draw_char_at(f, x, y, ','),
            Glyph::Variable { name } => sprite.draw_char_at(f, x, y, name),
            Glyph::Add => sprite.draw_char_at(f, x, y, '+'),
            Glyph::Subtract => sprite.draw_char_at(f, x, y, '-'),
            Glyph::Multiply => sprite.draw_char_at(f, x, y, '*'),
            Glyph::Divide => sprite.draw_char_at(f, x, y, '/'),
            Glyph::Fraction { inner_width } => {
                let w: i16 = inner_width.saturating_into();
                sprite.draw_line(x, y, x + w, y, white);
            },
            Glyph::Cursor { height } => {
                let h: i16 = height.saturating_into();
                sprite.draw_line(x, y, x, y + h, white);
            },
            Glyph::Placeholder => {
                let digit = match f.char_data(48) {
                    Some(d) => d,
                    None => {
                        return vstd::pervasive::unreached();
                    },
                };
                sprite.draw_rect(
                    x + 4,
                    y + 4,
                    (digit.width - 8) as u16,
                    (digit.height - 8) as u16,
                    Colour::grey(),
                    ShapeFill::Filled,
                    0,
                );
            },
            Glyph::LeftParenthesis { inner_height } => Self::draw_paren(&mut sprite, x, y, inner_height, 3, 1),
            Glyph::RightParenthesis { inner_height } => Self::draw_paren(&mut sprite, x, y, inner_height, 1, 3),
            Glyph::Sqrt { inner_area } => {
                let w = #[verifier::truncate] (inner_area.width as i16);
                sprite.draw_line(x + 7, y, x + w + 10, y, white);
                sprite.draw_line(x + w + 10, y, x + w + 10, y + 4, white);
            },
            Glyph::FunctionName { function } => sprite.print_at(f, x, y, function.render_name()),
        }
        self.sprite = Some(sprite);
    }
}


/// A node that an editing key puts into the expression at the cursor.
#[derive(PartialEq, Eq, Clone, Copy, Debug, Structural)]
pub enum EditNode {
    Digit(u8),
    Point,
    /// An empty pair of parentheses.
    Parentheses,
    Add,
    Subtract,
    Multiply,
    /// A fraction with an empty numerator and denominator.
    Fraction,
    /// An empty exponent.
    Power,
    /// An empty square root.
    Sqrt,
    Variable(char),
    /// A call of the function with one empty argument.
    Call(Function),
}

/// What a key does to the expression being edited. The expression and its cursor are kept by
/// the expression engine, which carries the action out.
#[derive(PartialEq, Eq, Clone, Copy, Debug, Structural)]
pub enum EditAction {
    Nothing,
    MoveLeft,
    MoveRight,
    /// Moves the cursor up; the engine reports whether it moved out of the expression.
    MoveUp,
    /// Moves the cursor down; the engine reports whether it moved out of the expression.
    MoveDown,
    Delete,
    Clear,
    Insert(EditNode),
    /// Deletes the node before the cursor and inserts this one in its place: a multi-tap key
    /// cycled to its next letter.
    Replace(EditNode),
    /// Shifts the letters that the multi-tap keys give next (in text mode).
    ShiftLetters,
}

/// Whether an unshifted key has a meaning while editing an expression: the menu and text keys,
/// the absent key and shifted keys have none.
pub open spec fn handled_unshifted(input: OSInput) -> bool {
    match input {
        OSInput::Button(b) => !(b is NoKey || b is Menu || b is Text),
        OSInput::ShiftedButton(_) => false,
        _ => true,
    }
}

/// What an unshifted key does: the arrow, delete and clear keys edit or move, the other keys
/// insert their node, a multi-tap letter is inserted or replaces the previous one, execute and
/// list are left to the caller, and shift shifts the letters in text mode (and otherwise the next
/// key).
pub open spec fn unshifted_action(input: OSInput, text_mode: bool) -> EditAction {
    match input {
        OSInput::Button(ButtonInput::MoveLeft) => EditAction::MoveLeft,
        OSInput::Button(ButtonInput::MoveRight) => EditAction::MoveRight,
        OSInput::Button(ButtonInput::MoveUp) => EditAction::MoveUp,
        OSInput::Button(ButtonInput::MoveDown) => EditAction::MoveDown,
        OSInput::Button(ButtonInput::Delete) => EditAction::Delete,
        OSInput::Button(ButtonInput::Clear) => EditAction::Clear,
        OSInput::Button(ButtonInput::Digit(d)) => EditAction::Insert(EditNode::Digit(d)),
        OSInput::Button(ButtonInput::Point) => EditAction::Insert(EditNode::Point),
        OSInput::Button(ButtonInput::Parentheses) => EditAction::Insert(EditNode::Parentheses),
        OSInput::Button(ButtonInput::Add) => EditAction::Insert(EditNode::Add),
        OSInput::Button(ButtonInput::Subtract) => EditAction::Insert(EditNode::Subtract),
        OSInput::Button(ButtonInput::Multiply) => EditAction::Insert(EditNode::Multiply),
        OSInput::Button(ButtonInput::Fraction) => EditAction::Insert(EditNode::Fraction),
        OSInput::Button(ButtonInput::Power) => EditAction::Insert(EditNode::Power),
        OSInput::Button(ButtonInput::Sqrt) => EditAction::Insert(EditNode::Sqrt),
        OSInput::TextMultiTapNew(c) => EditAction::Insert(EditNode::Variable(c)),
        OSInput::TextMultiTapCycle(c) => EditAction::Replace(EditNode::Variable(c)),
        OSInput::Button(ButtonInput::Shift) => if text_mode { EditAction::ShiftLetters } else { EditAction::Nothing },
        _ => EditAction::Nothing,
    }
}

/// What a key does after shift: 0 inserts the variable x, 1 a sine and 2 a cosine; other keys do
/// nothing.
pub open spec fn shifted_action(input: OSInput) -> EditAction {
    match input {
        OSInput::Button(ButtonInput::Digit(0)) => EditAction::Insert(EditNode::Variable('x')),
        OSInput::Button(ButtonInput::Digit(1)) => EditAction::Insert(EditNode::Call(Function::Sine)),
        OSInput::Button(ButtonInput::Digit(2)) => EditAction::Insert(EditNode::Call(Function::Cosine)),
        _ => EditAction::Nothing,
    }
}

/// Whether a key pressed after shift uses the shift up: shift itself and the keys 0, 1 and 2.
pub open spec fn uses_shift(input: OSInput) -> bool {
    ||| input == OSInput::Button(ButtonInput::Shift)
    ||| input == OSInput::Button(ButtonInput::Digit(0))
    ||| input == OSInput::Button(ButtonInput::Digit(1))
    ||| input == OSInput::Button(ButtonInput::Digit(2))
}

/// The editing state kept beside an expression and its cursor: whether the next key is shifted.
pub struct RbopContext {
    pub input_shift: bool,
}

impl RbopContext {
    /// The state for a fresh expression: unshifted.
    pub fn new() -> (c: Self)
        ensures
            !c.input_shift,
    {
        RbopContext { input_shift: false }
    }

    /// Decides what a key does to the expression, with the operating system in text mode or not,
    /// and updates the shift: an unshifted shift key outside text mode shifts the next key, and a
    /// shifted key that has a meaning, or shift again, ends the shift.
    pub fn input(&mut self, input: OSInput, text_mode: bool) -> (a: EditAction)
        requires
            !old(self).input_shift ==> handled_unshifted(input),
        ensures
            !old(self).input_shift ==> a == unshifted_action(input, text_mode)
                && final(self).input_shift == (input == OSInput::Button(ButtonInput::Shift) && !text_mode),
            old(self).input_shift ==> a == shifted_action(input) && final(self).input_shift == !uses_shift(input),
    {
        if !self.input_shift {
            match input {
                OSInput::Button(ButtonInput::MoveLeft) => EditAction::MoveLeft,
                OSInput::Button(ButtonInput::MoveRight) => EditAction::MoveRight,
                OSInput::Button(ButtonInput::MoveUp) => EditAction::MoveUp,
                OSInput::Button(ButtonInput::MoveDown) => EditAction::MoveDown,
                OSInput::Button(ButtonInput::Delete) => EditAction::Delete,
                OSInput::Button(ButtonInput::Clear) => EditAction::Clear,
                OSInput::Button(ButtonInput::Digit(d)) => EditAction::Insert(EditNode::Digit(d)),
                OSInput::Button(ButtonInput::Point) => EditAction::Insert(EditNode::Point),
                OSInput::Button(ButtonInput::Parentheses) => EditAction::Insert(EditNode::Parentheses),
                OSInput::Button(ButtonInput::Add) => EditAction::Insert(EditNode::Add),
                OSInput::Button(ButtonInput::Subtract) => EditAction::Insert(EditNode::Subtract),
                OSInput::Button(ButtonInput::Multiply) => EditAction::Insert(EditNode::Multiply),
                OSInput::Button(ButtonInput::Fraction) => EditAction::Insert(EditNode::Fraction),
                OSInput::Button(ButtonInput::Power) => EditAction::Insert(EditNode::Power),
                OSInput::Button(ButtonInput::Sqrt) => EditAction::Insert(EditNode::Sqrt),
                OSInput::TextMultiTapNew(c) => EditAction::Insert(EditNode::Variable(c)),
                OSInput::TextMultiTapCycle(c) => EditAction::Replace(EditNode::Variable(c)),
                OSInput::Button(ButtonInput::Exe) => EditAction::Nothing,
                OSInput::Button(ButtonInput::List) => EditAction::Nothing,
                OSInput::Button(ButtonInput::Shift) => {
                    if text_mode {
                        EditAction::ShiftLetters
                    } else {
                        self.input_shift = true;
                        EditAction::Nothing
                    }
                },
                _ => vstd::pervasive::unreached(),
            }
        } else {
            let (action, pressed) = match input {
                OSInput::Button(ButtonInput::Shift) => (EditAction::Nothing, true),
                OSInput::Button(ButtonInput::Digit(0)) => (EditAction::Insert(EditNode::Variable('x')), true),
                OSInput::Button(ButtonInput::Digit(1)) => (EditAction::Insert(EditNode::Call(Function::Sine)), true),
                OSInput::Button(ButtonInput::Digit(2)) => (EditAction::Insert(EditNode::Call(Function::Cosine)), true),
                _ => (EditAction::Nothing, false),
            };
            if pressed {
                self.input_shift = false;
            }
            action
        }
    }
}

} // verus!
