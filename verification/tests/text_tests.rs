use delta_pico::display::Colour;
use delta_pico::font::{AsciiFont, AsciiFontGlyph, TableFont};
use delta_pico::graphics::Sprite;

/// A font where 'A' and 'B' are 2x2 glyphs and every other byte up to 'z' is a 1x2 glyph.
fn test_font() -> TableFont {
    let mut glyphs = Vec::new();
    for b in 0..=255u16 {
        let glyph = if b == 65 || b == 66 {
            // Opaque top-left, half-transparent bottom-left, clear right column.
            Some(AsciiFontGlyph { width: 2, height: 2, data: vec![0xF8, 0x00] })
        } else if b >= 33 && b <= 122 {
            Some(AsciiFontGlyph { width: 1, height: 2, data: vec![0xFF] })
        } else {
            None
        };
        glyphs.push(glyph);
    }
    TableFont { glyphs }
}

#[test]
fn char_data_looks_up_glyphs() {
    let font = test_font();
    let a = font.char_data(b'A').unwrap();
    assert_eq!((a.width, a.height, a.data.clone()), (2, 2, vec![0xF8, 0x00]));
    assert!(font.char_data(b' ').is_none());
}

#[test]
fn string_size_measures_lines() {
    let font = test_font();
    assert_eq!(font.string_size("AB"), (4, 2));
    assert_eq!(font.string_size("AB\nxyz"), (4, 4));
    assert_eq!(font.string_size(""), (0, 2));
    // Characters without glyphs take no space.
    assert_eq!(font.string_size("A A"), (4, 2));
}

#[test]
fn draw_char_blends_white_and_advances() {
    let font = test_font();
    let mut s = Sprite::new(4, 4);
    s.set_cursor(1, 1);
    s.draw_char(&font, 'A');
    assert_eq!(s.data[1 * 4 + 1], Colour::white());
    assert_eq!(s.data[2 * 4 + 1], Colour::black().interpolate_with_nibble(Colour::white(), 8));
    assert_eq!(s.data[1 * 4 + 2], Colour::black());
    assert_eq!(s.get_cursor(), (2, 1));
}

#[test]
fn newline_moves_cursor_down() {
    let font = test_font();
    let mut s = Sprite::new(4, 4);
    s.set_cursor(3, 0);
    s.draw_char(&font, '\n');
    assert_eq!(s.get_cursor(), (0, 2));
}

#[test]
fn print_at_draws_each_character() {
    let font = test_font();
    let mut s = Sprite::new(8, 2);
    s.print_at(&font, 0, 0, "xy");
    assert_eq!(s.data[0], Colour::white());
    assert_eq!(s.data[1], Colour::black());
    assert_eq!(s.get_cursor(), (0, 0));
    s.draw_char_at(&font, 4, 0, 'x');
    assert_eq!(s.data[4], Colour::white());
}

#[test]
fn print_centred_offsets_by_half_the_free_width() {
    let font = test_font();
    let mut s = Sprite::new(10, 2);
    // "xxx" is 3 wide; centred in 10 it starts (10 - 3) / 2 = 3 to the right.
    s.print_centred(&font, 0, 0, 10, "xxx");
    let row: Vec<bool> = (0..10).map(|x| s.data[x] == Colour::white()).collect();
    assert_eq!(row, vec![false, false, false, true, false, false, false, false, false, false]);
}

#[test]
fn wrap_text_breaks_on_white_space() {
    let font = test_font();
    let mut s = Sprite::new(10, 10);
    let (lines, line_height, height) = s.wrap_text(&font, "aa bb  cc", 4);
    assert_eq!(lines, vec!["aa bb ".to_string(), "cc ".to_string()]);
    assert_eq!((line_height, height), (2, 4));
}

#[test]
fn wrap_text_breaks_long_words() {
    let font = test_font();
    let mut s = Sprite::new(10, 10);
    let (lines, _, height) = s.wrap_text(&font, "abcdefg h", 3);
    assert_eq!(lines, vec!["".to_string(), "abc".to_string(), "def".to_string(), "g h ".to_string()]);
    // Four lines of height 2, the empty first one included.
    assert_eq!(height, 4 * 2);
}

#[test]
fn printing_in_parts_draws_the_same() {
    let font = test_font();
    let mut whole = Sprite::new(12, 6);
    whole.print(&font, "AB\nxy");
    let mut parts = Sprite::new(12, 6);
    parts.print(&font, "AB");
    parts.print(&font, "\nx");
    parts.print(&font, "y");
    parts.print(&font, "");
    assert_eq!(whole.data, parts.data);
    assert_eq!((whole.cursor_x, whole.cursor_y), (parts.cursor_x, parts.cursor_y));
}
