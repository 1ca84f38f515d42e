use delta_pico::display::{rgb565_to_rgba8888, Colour, ShapeFill};

const LOOKUP: [u16; 16] = [
    0x0000, 0x000a, 0x0015, 0x001f, 0x0120, 0x012a, 0x0135, 0x013f, 0x0240, 0x024a, 0x0255, 0x025f, 0x0360,
    0x036a, 0x0375, 0x037f,
];

#[test]
fn named_colours_match_their_rgb565_values() {
    assert_eq!(Colour::white(), Colour::from_rgb565(0xFFFF));
    assert_eq!(Colour::black(), Colour::from_rgb565(0x0000));
    assert_eq!(Colour::orange(), Colour::from_rgb565(0xD340));
    assert_eq!(Colour::blue(), Colour::from_rgb565(0x0392));
    assert_eq!(Colour::dark_blue(), Colour::from_rgb565(0x024B));
    assert_eq!(Colour::grey(), Colour::from_rgb565(0x31A6));
    assert_eq!(Colour::red(), Colour::from_rgb565(0xF800));
}

#[test]
fn to_parts_splits_rgb332() {
    assert_eq!(Colour(0b101_011_10).to_parts(), (5, 3, 2));
    assert_eq!(Colour(0xFF).to_parts(), (7, 7, 3));
    assert_eq!(Colour(0).to_parts(), (0, 0, 0));
}

#[test]
fn from_parts_packs_and_lets_large_parts_interfere() {
    assert_eq!(Colour::from_parts(5, 3, 2), Colour(0b101_011_10));
    // A green of 8 spills into red.
    assert_eq!(Colour::from_parts(0, 8, 0), Colour(0b001_000_00));
}

#[test]
fn parts_round_trip_for_every_colour() {
    for c in 0..=255u8 {
        let (r, g, b) = Colour(c).to_parts();
        assert_eq!(Colour::from_parts(r, g, b), Colour(c));
    }
}

#[test]
fn to_rgb565_matches_the_conversion_table() {
    for (i, expected) in LOOKUP.iter().enumerate() {
        assert_eq!(Colour(i as u8).to_rgb565(), *expected);
    }
    assert_eq!(Colour(0x24).to_rgb565(), 0x2120);
    assert_eq!(Colour(0xCC).to_rgb565(), 0xdb60);
    assert_eq!(Colour(0xFF).to_rgb565(), 0xffff);
}

#[test]
fn to_rgb565_parts_splits_channels() {
    assert_eq!(Colour(0xFF).to_rgb565_parts(), (31, 63, 31));
    assert_eq!(Colour(0x24).to_rgb565_parts(), (4, 9, 0));
}

#[test]
fn rgb565_round_trip_for_every_colour() {
    for c in 0..=255u8 {
        assert_eq!(Colour::from_rgb565(Colour(c).to_rgb565()), Colour(c));
    }
}

#[test]
fn interpolation_endpoints() {
    let a = Colour::red();
    let b = Colour::blue();
    assert_eq!(a.interpolate_with_nibble(b, 0), a);
    assert_eq!(a.interpolate_with_nibble(b, 0xF), b);
    // Only the low nibble counts.
    assert_eq!(a.interpolate_with_nibble(b, 0x10), a);
    assert_eq!(a.interpolate_with_nibble(b, 0x1F), b);
}

#[test]
fn interpolation_midpoint() {
    // Black to white at 8/16: each RGB565 channel goes halfway, rounded towards black:
    // red 15 of 31, green 31 of 63, blue 15 of 31, which narrow to 3, 3 and 1.
    let c = Colour::black().interpolate_with_nibble(Colour::white(), 8);
    assert_eq!(c, Colour::from_parts(3, 3, 1));
    // From white towards black, rounding is towards white: 31 - 15 = 16 narrows to 4.
    let d = Colour::white().interpolate_with_nibble(Colour::black(), 8);
    assert_eq!(d, Colour::from_parts(4, 4, 2));
}

#[test]
fn simulator_colour_conversion() {
    assert_eq!(rgb565_to_rgba8888(Colour(0)), 0x000000);
    assert_eq!(rgb565_to_rgba8888(Colour(0xFF)), (28 << 8) | 255);
    assert_eq!(rgb565_to_rgba8888(Colour(0x1F)), 255);
}

#[test]
fn shape_fill_compares() {
    assert_ne!(ShapeFill::Filled, ShapeFill::Hollow);
}
