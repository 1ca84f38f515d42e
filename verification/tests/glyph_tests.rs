use delta_pico::display::Colour;
use delta_pico::font::{AsciiFontGlyph, TableFont};
use delta_pico::graphics::Sprite;
use delta_pico::input::{ButtonInput, OSInput};
use delta_pico::rbop_impl::{
    Area, EditAction, EditNode, Function, Glyph, RbopContext, RbopSpriteRenderer, SizedGlyph,
    ViewportGlyph, ViewportPoint, ViewportVisibility,
};

/// A font whose capital A is `letter_w` by `line_h`, whose digit 0 is `zero_w` by `zero_h`, and
/// whose other printable characters are `letter_w` by `line_h`, all fully opaque.
fn font(letter_w: u8, line_h: u8, zero_w: u8, zero_h: u8) -> TableFont {
    let mut glyphs = Vec::new();
    for b in 0..=255u16 {
        let glyph = if b == 48 {
            let n = (zero_w as usize * zero_h as usize + 1) / 2;
            Some(AsciiFontGlyph { width: zero_w, height: zero_h, data: vec![0xFF; n] })
        } else if (33..=122).contains(&b) {
            let n = (letter_w as usize * line_h as usize + 1) / 2;
            Some(AsciiFontGlyph { width: letter_w, height: line_h, data: vec![0xFF; n] })
        } else {
            None
        };
        glyphs.push(glyph);
    }
    TableFont { glyphs }
}

fn normal() -> TableFont {
    font(6, 10, 10, 12)
}

fn small() -> TableFont {
    font(3, 5, 4, 6)
}

fn at(glyph: Glyph, x: i64, y: i64) -> ViewportGlyph {
    ViewportGlyph {
        glyph: SizedGlyph { glyph, area: Area { width: 0, height: 0 }, size_reduction_level: 0 },
        point: ViewportPoint { x, y },
        visibility: ViewportVisibility::Visible,
    }
}

fn renderer(w: u16, h: u16) -> RbopSpriteRenderer {
    RbopSpriteRenderer { sprite: Some(Sprite::new(w, h)) }
}

fn white_pixels(r: &RbopSpriteRenderer) -> Vec<(u16, u16)> {
    let s = r.sprite.as_ref().unwrap();
    let mut out = Vec::new();
    for y in 0..s.height {
        for x in 0..s.width {
            if s.data[(y as usize) * (s.width as usize) + x as usize] == Colour::white() {
                out.push((x, y));
            }
        }
    }
    out
}

#[test]
fn function_names() {
    assert_eq!(Function::Sine.render_name(), "sin");
    assert_eq!(Function::Cosine.render_name(), "cos");
    assert_eq!(Function::GreatestCommonDenominator.render_name(), "gcd");
}

#[test]
fn most_glyphs_take_the_size_of_a_zero() {
    let (f, s) = (normal(), small());
    let r = RbopSpriteRenderer::new();
    // A zero is 10 wide; heights are the line height, that of a capital A.
    let digit = Area { width: 10, height: 10 };
    for g in [Glyph::Digit { number: 7 }, Glyph::Add, Glyph::Subtract, Glyph::Multiply, Glyph::Divide, Glyph::Comma, Glyph::Placeholder] {
        assert_eq!(r.size(&f, &s, g, 0), digit);
    }
    assert_eq!(r.size(&f, &s, Glyph::Point, 0), Area { width: 5, height: 10 });
    // Smaller glyphs are measured in the small font.
    assert_eq!(r.size(&f, &s, Glyph::Add, 1), Area { width: 4, height: 5 });
}

#[test]
fn names_and_variables_take_the_size_of_their_text() {
    let (f, s) = (normal(), small());
    let r = RbopSpriteRenderer::new();
    assert_eq!(r.size(&f, &s, Glyph::Variable { name: 'x' }, 0), Area { width: 6, height: 10 });
    assert_eq!(r.size(&f, &s, Glyph::FunctionName { function: Function::Sine }, 0), Area { width: 18, height: 10 });
    assert_eq!(r.size(&f, &s, Glyph::FunctionName { function: Function::Cosine }, 2), Area { width: 9, height: 5 });
}

#[test]
fn structural_glyphs_surround_their_contents() {
    let (f, s) = (normal(), small());
    let r = RbopSpriteRenderer::new();
    assert_eq!(r.size(&f, &s, Glyph::Fraction { inner_width: 30 }, 0), Area { width: 30, height: 1 });
    assert_eq!(r.size(&f, &s, Glyph::LeftParenthesis { inner_height: 4 }, 0), Area { width: 5, height: 16 });
    assert_eq!(r.size(&f, &s, Glyph::RightParenthesis { inner_height: 20 }, 0), Area { width: 5, height: 20 });
    assert_eq!(r.size(&f, &s, Glyph::Sqrt { inner_area: Area { width: 10, height: 12 } }, 0), Area { width: 24, height: 17 });
    assert_eq!(r.size(&f, &s, Glyph::Cursor { height: 9 }, 0), Area { width: 0, height: 9 });
    assert_eq!(r.square_root_padding(), 5);
}

#[test]
fn fraction_line_is_drawn_across() {
    let (f, s) = (normal(), small());
    let mut r = renderer(12, 6);
    r.draw(&f, &s, at(Glyph::Fraction { inner_width: 5 }, 2, 3));
    assert_eq!(white_pixels(&r), vec![(2, 3), (3, 3), (4, 3), (5, 3), (6, 3)]);
}

#[test]
fn clipped_fraction_line_is_shortened() {
    let (f, s) = (normal(), small());
    let mut r = renderer(12, 6);
    let mut g = at(Glyph::Fraction { inner_width: 10 }, 5, 1);
    g.visibility = ViewportVisibility::Clipped { invisible: false, top_clip: 0, bottom_clip: 0, left_clip: 2, right_clip: 3 };
    r.draw(&f, &s, g);
    // 10 - 2 - 3 = 5 pixels, moved to the left edge.
    assert_eq!(white_pixels(&r), vec![(0, 1), (1, 1), (2, 1), (3, 1), (4, 1)]);
}

#[test]
fn invisible_glyph_is_not_drawn() {
    let (f, s) = (normal(), small());
    let mut r = renderer(12, 6);
    let mut g = at(Glyph::Cursor { height: 4 }, 1, 1);
    g.visibility = ViewportVisibility::Clipped { invisible: true, top_clip: 0, bottom_clip: 0, left_clip: 0, right_clip: 0 };
    r.draw(&f, &s, g);
    assert!(white_pixels(&r).is_empty());
}

#[test]
fn cursor_is_a_vertical_line() {
    let (f, s) = (normal(), small());
    let mut r = renderer(8, 8);
    r.draw(&f, &s, at(Glyph::Cursor { height: 3 }, 4, 2));
    assert_eq!(white_pixels(&r), vec![(4, 2), (4, 3), (4, 4)]);
}

#[test]
fn placeholder_is_a_grey_box_inside_a_zero() {
    let (f, s) = (normal(), small());
    let mut r = renderer(20, 20);
    r.draw(&f, &s, at(Glyph::Placeholder, 1, 2));
    let sprite = r.sprite.as_ref().unwrap();
    // The zero is 10 by 12, so the box is 2 by 4 at (5, 6).
    for y in 0..20u16 {
        for x in 0..20u16 {
            let expected = if (5..7).contains(&x) && (6..10).contains(&y) { Colour::grey() } else { Colour::black() };
            assert_eq!(sprite.data[(y * 20 + x) as usize], expected, "pixel ({}, {})", x, y);
        }
    }
}

#[test]
fn left_parenthesis_strokes() {
    let (f, s) = (normal(), small());
    let mut r = renderer(6, 20);
    r.draw(&f, &s, at(Glyph::LeftParenthesis { inner_height: 4 }, 0, 0));
    let mut expected = vec![(3, 0), (1, 7), (3, 14)];
    expected.extend((2..6).map(|y| (2, y)));
    expected.extend((9..13).map(|y| (2, y)));
    let mut got = white_pixels(&r);
    got.sort();
    expected.sort();
    assert_eq!(got, expected);
}

#[test]
fn digit_is_drawn_as_its_character() {
    let (f, s) = (normal(), small());
    let mut r = renderer(20, 20);
    r.draw(&f, &s, at(Glyph::Digit { number: 3 }, 2, 1));
    let sprite = r.sprite.as_ref().unwrap();
    // '3' is a 6 by 10 opaque glyph; the cursor ends one short of its width.
    assert_eq!(sprite.get_cursor(), (7, 1));
    assert_eq!(white_pixels(&r).len(), 60);
}

#[test]
fn square_root_strokes() {
    let (f, s) = (normal(), small());
    let mut r = renderer(40, 30);
    let g = at(Glyph::Sqrt { inner_area: Area { width: 10, height: 12 } }, 5, 5);
    assert_eq!(r.slanted_strokes(&g), vec![(5, 14, 9, 18), (9, 18, 12, 5)]);
    assert!(r.slanted_strokes(&at(Glyph::Add, 5, 5)).is_empty());
    r.draw(&f, &s, g);
    // The top line runs from x = 12 up to 25, then the flick goes down from (25, 5).
    let mut expected: Vec<(u16, u16)> = (12..25).map(|x| (x, 5)).collect();
    expected.extend((6..9).map(|y| (25, y)));
    expected.push((25, 5));
    let mut got = white_pixels(&r);
    got.sort();
    expected.sort();
    expected.dedup();
    assert_eq!(got, expected);
}

#[test]
fn editing_keys_map_to_actions() {
    let mut ctx = RbopContext::new();
    assert!(!ctx.input_shift);
    assert_eq!(ctx.input(OSInput::Button(ButtonInput::MoveLeft), false), EditAction::MoveLeft);
    assert_eq!(ctx.input(OSInput::Button(ButtonInput::MoveUp), false), EditAction::MoveUp);
    assert_eq!(ctx.input(OSInput::Button(ButtonInput::Digit(7)), false), EditAction::Insert(EditNode::Digit(7)));
    assert_eq!(ctx.input(OSInput::Button(ButtonInput::Fraction), false), EditAction::Insert(EditNode::Fraction));
    assert_eq!(ctx.input(OSInput::TextMultiTapNew('a'), true), EditAction::Insert(EditNode::Variable('a')));
    assert_eq!(ctx.input(OSInput::TextMultiTapCycle('b'), true), EditAction::Replace(EditNode::Variable('b')));
    assert_eq!(ctx.input(OSInput::Button(ButtonInput::Exe), false), EditAction::Nothing);
    // In text mode shift goes to the letters and the next key is not shifted.
    assert_eq!(ctx.input(OSInput::Button(ButtonInput::Shift), true), EditAction::ShiftLetters);
    assert!(!ctx.input_shift);
    // Otherwise it shifts the next key: 1 gives a sine, and the shift is used up.
    assert_eq!(ctx.input(OSInput::Button(ButtonInput::Shift), false), EditAction::Nothing);
    assert!(ctx.input_shift);
    assert_eq!(ctx.input(OSInput::Button(ButtonInput::Digit(1)), false), EditAction::Insert(EditNode::Call(Function::Sine)));
    assert!(!ctx.input_shift);
    // A shifted key without a meaning does nothing and keeps the shift; shift again ends it.
    ctx.input(OSInput::Button(ButtonInput::Shift), false);
    assert_eq!(ctx.input(OSInput::Button(ButtonInput::Add), false), EditAction::Nothing);
    assert!(ctx.input_shift);
    assert_eq!(ctx.input(OSInput::Button(ButtonInput::Digit(0)), false), EditAction::Insert(EditNode::Variable('x')));
    assert!(!ctx.input_shift);
    ctx.input(OSInput::Button(ButtonInput::Shift), false);
    assert_eq!(ctx.input(OSInput::Button(ButtonInput::Shift), false), EditAction::Nothing);
    assert!(!ctx.input_shift);
    ctx.input(OSInput::Button(ButtonInput::Shift), false);
    assert_eq!(ctx.input(OSInput::Button(ButtonInput::Digit(2)), false), EditAction::Insert(EditNode::Call(Function::Cosine)));
}
