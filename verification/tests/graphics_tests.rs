use delta_pico::display::{Colour, ShapeFill};
use delta_pico::graphics::{DrawingSurface, Sprite};
use delta_pico::saturating::SaturatingInto;

fn at(s: &Sprite, x: usize, y: usize) -> Colour {
    s.data[y * s.width as usize + x]
}

#[test]
fn new_sprite_is_black() {
    let s = Sprite::new(4, 3);
    assert_eq!(s.data.len(), 12);
    assert!(s.data.iter().all(|c| *c == Colour::black()));
    assert_eq!(s.get_cursor(), (0, 0));
    assert_eq!(Sprite::empty().data.len(), 0);
}

#[test]
fn resize_blackens_and_keeps_cursor() {
    let mut s = Sprite::new(2, 2);
    s.fill(Colour::red());
    s.set_cursor(5, 6);
    s.resize(3, 1);
    assert_eq!((s.width, s.height, s.data.len()), (3, 1, 3));
    assert!(s.data.iter().all(|c| *c == Colour::black()));
    assert_eq!(s.get_cursor(), (5, 6));
}

#[test]
fn pixel_access() {
    let mut s = Sprite::new(3, 2);
    *s.pixel(2, 1) = Colour::red();
    assert_eq!(s.pixel_immutable(2, 1), Colour::red());
    assert_eq!(s.try_pixel_immutable(2, 1), Some(Colour::red()));
    assert_eq!(s.try_pixel_immutable(-1, 0), None);
    assert_eq!(s.try_pixel_immutable(0, 2), None);
    // A column beyond the row's end continues on the next row.
    assert_eq!(s.try_pixel_immutable(5, 0), Some(Colour::red()));
    if let Some(p) = s.try_pixel(0, 0) {
        *p = Colour::blue();
    }
    assert_eq!(at(&s, 0, 0), Colour::blue());
    assert!(s.try_pixel(3, 1).is_none());
}

#[test]
fn draw_pixel_ignores_outside() {
    let mut s = Sprite::new(2, 2);
    s.draw_pixel(1, 1, Colour::white());
    s.draw_pixel(-5, 0, Colour::white());
    s.draw_pixel(0, 9, Colour::white());
    assert_eq!(s.data.iter().filter(|c| **c == Colour::white()).count(), 1);
    assert_eq!(at(&s, 1, 1), Colour::white());
}

#[test]
fn horizontal_line_excludes_its_end() {
    let mut s = Sprite::new(5, 2);
    s.draw_line(3, 1, 1, 1, Colour::white());
    let row: Vec<Colour> = (0..5).map(|x| at(&s, x, 1)).collect();
    assert_eq!(row, vec![Colour::black(), Colour::white(), Colour::white(), Colour::black(), Colour::black()]);
    assert!((0..5).all(|x| at(&s, x, 0) == Colour::black()));
}

#[test]
fn vertical_line_excludes_its_end() {
    let mut s = Sprite::new(2, 4);
    s.draw_line(1, 0, 1, 3, Colour::white());
    let col: Vec<Colour> = (0..4).map(|y| at(&s, 1, y)).collect();
    assert_eq!(col, vec![Colour::white(), Colour::white(), Colour::white(), Colour::black()]);
}

#[test]
fn filled_rect_is_clipped() {
    let mut s = Sprite::new(4, 4);
    s.draw_rect(-1, 2, 3, 5, Colour::white(), ShapeFill::Filled, 0);
    for y in 0..4 {
        for x in 0..4 {
            let inside = x < 2 && y >= 2;
            assert_eq!(at(&s, x, y) == Colour::white(), inside, "pixel {x},{y}");
        }
    }
}

#[test]
fn hollow_rect_draws_border() {
    let mut s = Sprite::new(5, 5);
    s.draw_rect(0, 0, 4, 3, Colour::white(), ShapeFill::Hollow, 0);
    for y in 0..5 {
        for x in 0..5 {
            let border = x < 4 && y < 3 && (x == 0 || y == 0 || x == 3 || y == 2);
            assert_eq!(at(&s, x, y) == Colour::white(), border, "pixel {x},{y}");
        }
    }
}

#[test]
fn drawing_surface_rect_and_fill() {
    let mut s = Sprite::new(3, 3);
    assert!(DrawingSurface::fill_surface(&mut s, Colour::grey()).is_ok());
    assert!(s.data.iter().all(|c| *c == Colour::grey()));
    assert!(DrawingSurface::draw_rect(&mut s, 1, 1, 5, 5, true, Colour::red()).is_ok());
    assert_eq!(at(&s, 0, 0), Colour::grey());
    assert_eq!(at(&s, 2, 2), Colour::red());
    assert_eq!(at(&s, 1, 2), Colour::red());
}

#[test]
fn draw_sprite_copies_and_clips() {
    let mut src = Sprite::new(2, 2);
    *src.pixel(0, 0) = Colour::red();
    *src.pixel(1, 1) = Colour::blue();
    let mut dst = Sprite::new(3, 3);
    dst.fill(Colour::grey());
    dst.draw_sprite(2, 1, &src);
    assert_eq!(at(&dst, 2, 1), Colour::red());
    assert_eq!(at(&dst, 0, 0), Colour::grey());
    assert_eq!(at(&dst, 2, 2), Colour::black());
    // Column 1 of the source falls beyond the row's end and continues on the next row.
    assert_eq!(at(&dst, 0, 2), Colour::black());
    assert_eq!(at(&dst, 1, 2), Colour::grey());
}

#[test]
fn draw_bitmap_decodes_runs_and_transparency() {
    // 2 columns of 3 pixels; transparent 0x1234; run marker 0xFFFF.
    // Column 0: a run of 2 white, then one red. Column 1: transparent, then a run of 2 transparent.
    let bitmap = [2u16, 3, 0x1234, 0xFFFF, 0xFFFF, 2, 0xFFFF, 0xF800, 0x1234, 0xFFFF, 2, 0x1234];
    let mut s = Sprite::new(3, 3);
    s.fill(Colour::grey());
    s.draw_bitmap(1, 0, &bitmap);
    assert_eq!(at(&s, 1, 0), Colour::white());
    assert_eq!(at(&s, 1, 1), Colour::white());
    assert_eq!(at(&s, 1, 2), Colour::red());
    assert_eq!(at(&s, 2, 0), Colour::grey());
    assert_eq!(at(&s, 2, 1), Colour::grey());
    assert_eq!(at(&s, 0, 0), Colour::grey());
}

#[test]
fn saturating_conversions() {
    let a: u16 = 70000u32.saturating_into();
    let b: u16 = (-5i32).saturating_into();
    let c: i16 = 40000i32.saturating_into();
    let d: i32 = (-(1i64 << 40)).saturating_into();
    let e: u32 = 12i64.saturating_into();
    assert_eq!((a, b, c, d, e), (u16::MAX, 0, i16::MAX, i32::MIN, 12));
}
