use vstd::prelude::*;
use crate::graphics::Sprite;

verus! {

/// The red component (0 to 7) of an RGB332 colour byte.
pub open spec fn red_of(c: u8) -> int {
    c as int / 32
}

/// The green component (0 to 7) of an RGB332 colour byte.
pub open spec fn green_of(c: u8) -> int {
    (c as int / 4) % 8
}

/// The blue component (0 to 3) of an RGB332 colour byte.
pub open spec fn blue_of(c: u8) -> int {
    c as int % 4
}

/// The red component of an RGB332 colour widened to five bits, rounded to the nearest level.
pub open spec fn red565_of(c: u8) -> int {
    (red_of(c) * 31 + 3) / 7
}

/// The green component of an RGB332 colour widened to six bits.
pub open spec fn green565_of(c: u8) -> int {
    green_of(c) * 9
}

/// The blue component of an RGB332 colour widened to five bits, rounded to the nearest level.
pub open spec fn blue565_of(c: u8) -> int {
    (blue_of(c) * 31 + 1) / 3
}

/// An RGB565 value from its three components.
pub open spec fn pack565(r: int, g: int, b: int) -> int {
    r * 2048 + g * 32 + b
}

/// The RGB565 equivalent of an RGB332 colour byte.
pub open spec fn rgb565_of(c: u8) -> int {
    pack565(red565_of(c), green565_of(c), blue565_of(c))
}

/// The RGB332 colour byte nearest below an RGB565 value: the top three bits of red and green and
/// the top two bits of blue.
pub open spec fn rgb332_of(c: u16) -> int {
    (c as int / 8192) * 32 + ((c as int / 256) % 8) * 4 + (c as int / 8) % 4
}

/// A linear step of `t` sixteenths from `a` towards `b`, rounded towards `a`.
pub open spec fn lerp16(a: int, b: int, t: int) -> int {
    if a <= b {
        a + (t * (b - a)) / 16
    } else {
        a - (t * (a - b)) / 16
    }
}

/// The colour `interpolate_with_nibble` gives for a nibble strictly between 0 and 15: each RGB565
/// channel interpolated on its own, then narrowed back to RGB332.
pub open spec fn interpolated(s: u8, o: u8, t: int) -> int {
    rgb332_of(
        pack565(
            lerp16(red565_of(s), red565_of(o), t),
            lerp16(green565_of(s), green565_of(o), t),
            lerp16(blue565_of(s), blue565_of(o), t),
        ) as u16,
    )
}

/// The colour byte `interpolate_with_nibble` gives from `s` towards `o` by the low nibble of
/// `amount`.
pub open spec fn interpolate_spec(s: u8, o: u8, amount: u8) -> u8 {
    let t = amount % 16;
    if t == 0 {
        s
    } else if t == 15 {
        o
    } else {
        interpolated(s, o, t as int) as u8
    }
}

/// A colour in the RGB332 format used by the display driver: three bits of red, three of green
/// and two of blue.
#[derive(PartialEq, Eq, Debug, Clone, Copy, Structural)]
pub struct Colour(pub u8);

impl Colour {
    /// White.
    pub fn white() -> (c: Colour)
        ensures
            c.0 == 0xFF,
    {
        Colour(0xFF)
    }

    /// Black.
    pub fn black() -> (c: Colour)
        ensures
            c.0 == 0x00,
    {
        Colour(0x00)
    }

    /// Orange (RGB565 0xD340).
    pub fn orange() -> (c: Colour)
        ensures
            c.0 == 0xCC,
    {
        Colour(0xCC)
    }

    /// Blue (RGB565 0x0392).
    pub fn blue() -> (c: Colour)
        ensures
            c.0 == 0x0E,
    {
        Colour(0x0E)
    }

    /// Dark blue (RGB565 0x024B).
    pub fn dark_blue() -> (c: Colour)
        ensures
            c.0 == 0x09,
    {
        Colour(0x09)
    }

    /// Grey (RGB565 0x31A6).
    pub fn grey() -> (c: Colour)
        ensures
            c.0 == 0x24,
    {
        Colour(0x24)
    }

    /// Red.
    pub fn red() -> (c: Colour)
        ensures
            c.0 == 0xE0,
    {
        Colour(0xE0)
    }

    /// Breaks this colour into its individual RGB332 components: (red, green, blue).
    pub fn to_parts(self) -> (r: (u8, u8, u8))
        ensures
            r.0 == red_of(self.0),
            r.1 == green_of(self.0),
            r.2 == blue_of(self.0),
    {
        let c = self.0;
        proof {
            assert((c & 0xE0u8) >> 5u8 == c / 32) by (bit_vector);
            assert((c & 0x1Cu8) >> 2u8 == (c / 4) % 8) by (bit_vector);
            assert(c & 0x03u8 == c % 4) by (bit_vector);
        }
        ((c & 0b11100000) >> 5, (c & 0b00011100) >> 2, c & 0b00000011)
    }

    /// Creates a colour from RGB332 components.
    ///
    /// The arguments are not bounds-checked: red or green components over 7, or a blue component
    /// over 3, interfere with the other channels. Within those bounds the components are packed
    /// exactly.
    pub fn from_parts(red: u8, green: u8, blue: u8) -> (c: Colour)
        ensures
            c.0 == ((red << 5u8) | (green << 2u8) | blue),
            red <= 7 && green <= 7 && blue <= 3 ==> c.0 == red * 32 + green * 4 + blue,
    {
        proof {
            assert(red <= 7 && green <= 7 && blue <= 3 ==> ((red << 5u8) | (green << 2u8) | blue)
                == red * 32 + green * 4 + blue) by (bit_vector);
        }
        Colour((red << 5) | (green << 2) | blue)
    }

    /// Given another colour, interpolates between the two colours based on the amount given.
    /// Only the lowest four bits of the `amount` are considered.
    ///
    /// If they are 0, this colour is returned; if they are 0xF, the other colour is returned. For
    /// values in between, each channel is interpolated linearly at RGB565 precision.
    pub fn interpolate_with_nibble(self, other: Colour, amount: u8) -> (c: Colour)
        ensures
            amount % 16 == 0 ==> c == self,
            amount % 16 == 15 ==> c == other,
            0 < amount % 16 < 15 ==> c.0 == interpolated(self.0, other.0, (amount % 16) as int),
            c.0 == interpolate_spec(self.0, other.0, amount),
    {
        let t = amount & 0x0F;
        proof {
            assert(amount & 0x0Fu8 == amount % 16) by (bit_vector);
        }
        if t == 0 {
            return self;
        }
        if t == 0x0F {
            return other;
        }
        let (self_r, self_g, self_b) = self.to_rgb565_parts();
        let (other_r, other_g, other_b) = other.to_rgb565_parts();
        let r = lerp_channel(self_r, other_r, t as u16);
        let g = lerp_channel(self_g, other_g, t as u16);
        let b = lerp_channel(self_b, other_b, t as u16);
        proof {
            lemma_lerp16_between(self_r as int, other_r as int, t as int);
            lemma_lerp16_between(self_g as int, other_g as int, t as int);
            lemma_lerp16_between(self_b as int, other_b as int, t as int);
            assert(r < 32 && g < 64 && b < 32);
        }
        let v = pack_rgb565(r, g, b);
        Colour::from_rgb565(v)
    }

    /// The RGB332 colour made of the top bits of each channel of an RGB565 value.
    pub fn from_rgb565(c: u16) -> (r: Colour)
        ensures
            r.0 == rgb332_of(c),
    {
        let red = ((c & 0b1110000000000000) >> 13) as u8;
        let green = ((c & 0b0000011100000000) >> 8) as u8;
        let blue = ((c & 0b0000000000011000) >> 3) as u8;
        proof {
            assert((c & 0xE000u16) >> 13u16 == c / 8192) by (bit_vector);
            assert((c & 0x0700u16) >> 8u16 == (c / 256) % 8) by (bit_vector);
            assert((c & 0x0018u16) >> 3u16 == (c / 8) % 4) by (bit_vector);
        }
        Colour::from_parts(red, green, blue)
    }

    /// This colour in the RGB565 format, each channel widened to the nearest level.
    pub fn to_rgb565(&self) -> (r: u16)
        ensures
            r == rgb565_of(self.0),
    {
        let (red, green, blue) = self.to_parts();
        let r5 = ((red as u16) * 31 + 3) / 7;
        let g6 = (green as u16) * 9;
        let b5 = ((blue as u16) * 31 + 1) / 3;
        pack_rgb565(r5, g6, b5)
    }

    /// The three RGB565 channels of this colour: (red, green, blue).
    pub fn to_rgb565_parts(self) -> (r: (u16, u16, u16))
        ensures
            r.0 == red565_of(self.0),
            r.1 == green565_of(self.0),
            r.2 == blue565_of(self.0),
            r.0 < 32 && r.1 < 64 && r.2 < 32,
    {
        let rgb565 = self.to_rgb565();
        let ghost (r5, g6, b5) = (red565_of(self.0), green565_of(self.0), blue565_of(self.0));
        proof {
            assert((rgb565 & 0xF800u16) >> 11u16 == rgb565 / 2048) by (bit_vector);
            assert((rgb565 & 0x07E0u16) >> 5u16 == (rgb565 / 32) % 64) by (bit_vector);
            assert(rgb565 & 0x001Fu16 == rgb565 % 32) by (bit_vector);
            lemma_unpack565(r5, g6, b5);
        }
        (
            (rgb565 & 0b1111100000000000) >> 11,
            (rgb565 & 0b0000011111100000) >> 5,
            rgb565 & 0b0000000000011111,
        )
    }
}

proof fn lemma_unpack565(r: int, g: int, b: int)
    requires
        0 <= r < 32,
        0 <= g < 64,
        0 <= b < 32,
    ensures
        pack565(r, g, b) / 2048 == r,
        (pack565(r, g, b) / 32) % 64 == g,
        pack565(r, g, b) % 32 == b,
{
    let v = pack565(r, g, b);
    assert(v / 2048 == r) by (nonlinear_arith)
        requires v == r * 2048 + g * 32 + b, 0 <= g < 64, 0 <= b < 32;
    assert(v / 32 == r * 64 + g) by (nonlinear_arith)
        requires v == r * 2048 + g * 32 + b, 0 <= b < 32;
    assert((r * 64 + g) % 64 == g) by (nonlinear_arith)
        requires 0 <= g < 64;
    assert(v % 32 == b) by (nonlinear_arith)
        requires v == r * 2048 + g * 32 + b, 0 <= b < 32;
}

/// Packs RGB565 channels into one value.
fn pack_rgb565(r: u16, g: u16, b: u16) -> (v: u16)
    requires
        r < 32,
        g < 64,
        b < 32,
    ensures
        v == pack565(r as int, g as int, b as int),
{
    proof {
        assert(r < 32 && g < 64 && b < 32 ==> ((r << 11u16) | (g << 5u16) | b) == r * 2048 + g * 32
            + b) by (bit_vector);
    }
    (r << 11) | (g << 5) | b
}

proof fn lemma_lerp16_between(a: int, b: int, t: int)
    requires
        0 <= t <= 16,
    ensures
        a <= b ==> a <= lerp16(a, b, t) <= b,
        b < a ==> b <= lerp16(a, b, t) <= a,
{
    if a <= b {
        assert(0 <= (t * (b - a)) / 16 <= b - a) by (nonlinear_arith)
            requires 0 <= t <= 16, a <= b;
    } else {
        assert(0 <= (t * (a - b)) / 16 <= a - b) by (nonlinear_arith)
            requires 0 <= t <= 16, b < a;
    }
}

/// One channel of `interpolate_with_nibble`.
fn lerp_channel(a: u16, b: u16, t: u16) -> (r: u16)
    requires
        a < 64,
        b < 64,
        t <= 16,
    ensures
        r == lerp16(a as int, b as int, t as int),
{
    proof {
        lemma_lerp16_between(a as int, b as int, t as int);
    }
    if a <= b {
        assert(t * (b - a) <= 16 * 64) by (nonlinear_arith)
            requires t <= 16, b - a <= 64;
        a + (t * (b - a)) / 16
    } else {
        assert(t * (a - b) <= 16 * 64) by (nonlinear_arith)
            requires t <= 16, a - b <= 64;
        a - (t * (a - b)) / 16
    }
}

/// Converting an RGB332 colour to RGB565 and back gives the same colour.
pub proof fn lemma_rgb565_round_trip(c: u8)
    ensures
        rgb332_of(rgb565_of(c) as u16) == c,
{
    let r = red565_of(c);
    let g = green565_of(c);
    let b = blue565_of(c);
    assert(0 <= red_of(c) < 8 && 0 <= green_of(c) < 8 && 0 <= blue_of(c) < 4);
    assert(r / 4 == red_of(c)) by (nonlinear_arith)
        requires r == (red_of(c) * 31 + 3) / 7, 0 <= red_of(c) < 8;
    assert(g / 8 == green_of(c)) by (nonlinear_arith)
        requires g == green_of(c) * 9, 0 <= green_of(c) < 8;
    assert(b / 8 == blue_of(c)) by (nonlinear_arith)
        requires b == (blue_of(c) * 31 + 1) / 3, 0 <= blue_of(c) < 4;
    let v = pack565(r, g, b);
    assert(0 <= r < 32 && 0 <= g < 64 && 0 <= b < 32);
    lemma_unpack565(r, g, b);
    assert(v / 8192 == r / 4) by (nonlinear_arith)
        requires v / 2048 == r, v >= 0;
    assert((v / 256) % 8 == g / 8) by (nonlinear_arith)
        requires (v / 32) % 64 == g, v >= 0;
    assert((v / 8) % 4 == b / 8) by (nonlinear_arith)
        requires v % 32 == b, v >= 0;
    assert(c == red_of(c) * 32 + green_of(c) * 4 + blue_of(c));
}

/// Splitting a colour into its parts and packing them again gives the same colour.
pub proof fn lemma_parts_round_trip(c: u8)
    ensures
        red_of(c) * 32 + green_of(c) * 4 + blue_of(c) == c,
        0 <= red_of(c) <= 7,
        0 <= green_of(c) <= 7,
        0 <= blue_of(c) <= 3,
{
}

/// Packing bounded parts and splitting the colour again gives the same parts.
pub proof fn lemma_from_parts_round_trip(red: u8, green: u8, blue: u8)
    requires
        red <= 7,
        green <= 7,
        blue <= 3,
    ensures
        red_of((red * 32 + green * 4 + blue) as u8) == red,
        green_of((red * 32 + green * 4 + blue) as u8) == green,
        blue_of((red * 32 + green * 4 + blue) as u8) == blue,
{
}

/// Whether a shape is drawn filled or as an outline.
#[derive(PartialEq, Eq, Debug, Clone, Copy, Structural)]
pub enum ShapeFill {
    Filled,
    Hollow,
}

/// The size of a font.
#[derive(PartialEq, Eq, Debug, Clone, Copy, Structural)]
pub enum FontSize {
    Default,
    Small,
}

/// The 24-bit RGB value the simulator shows for a colour. The colour byte is read through RGB565
/// masks, so red is always 0, green comes from the byte's top three bits and blue from its low
/// five, each scaled to eight bits.
pub open spec fn rgba8888_of(c: u8) -> int {
    let g6 = c as int / 32;
    let b5 = c as int % 32;
    ((g6 * 259 + 33) / 64) * 256 + (b5 * 527 + 23) / 64
}

/// The value the simulator window shows for a colour.
pub fn rgb565_to_rgba8888(colour: Colour) -> (r: u32)
    ensures
        r == rgba8888_of(colour.0),
{
    let c = colour.0 as u32;
    let r5 = (c & 0b1111100000000000) >> 11;
    let g6 = (c & 0b0000011111100000) >> 5;
    let b5 = c & 0b0000000000011111;
    proof {
        assert(c < 256 ==> (c & 0xF800u32) >> 11u32 == 0) by (bit_vector);
        assert(c < 256 ==> (c & 0x07E0u32) >> 5u32 == c / 32) by (bit_vector);
        assert(c & 0x1Fu32 == c % 32) by (bit_vector);
    }
    let rr = r5 * 527 + 23;
    let gg = g6 * 259 + 33;
    let bb = b5 * 527 + 23;
    let r8 = rr >> 6;
    let g8 = gg >> 6;
    let b8 = bb >> 6;
    proof {
        assert(rr >> 6u32 == rr / 64) by (bit_vector);
        assert(gg >> 6u32 == gg / 64) by (bit_vector);
        assert(bb >> 6u32 == bb / 64) by (bit_vector);
        assert((r8 << 16u32) | (g8 << 8u32) | b8 == g8 * 256 + b8) by (bit_vector)
            requires r8 == 0u32, g8 < 256u32, b8 < 256u32;
    }
    (r8 << 16) | (g8 << 8) | b8
}

/// A physical display that shows a sprite the size of its screen.
pub trait DisplayInterface {
    fn width(&self) -> u16;

    fn height(&self) -> u16;

    fn draw_display_sprite(&mut self, sprite: &Sprite);
}

} // verus!
