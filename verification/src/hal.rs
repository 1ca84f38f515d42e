use vstd::prelude::*;

verus! {

/// A key of the button matrix being pressed or released, by row and column.
#[derive(Clone, Copy, PartialEq, Eq, Debug, Structural)]
pub enum RawButtonEvent {
    Press(u8, u8),
    Release(u8, u8),
}

/// A failure of the EEPROM driver.
#[derive(Clone, Copy, PartialEq, Eq, Debug, Structural)]
pub enum Cat24CError {
    I2CError,
}

/// A failure of the I/O expander driver.
#[derive(Clone, Copy, PartialEq, Eq, Debug, Structural)]
pub enum Pcf8574Error {
    I2CError,
}

/// A failure of the display driver.
#[derive(Clone, Copy, PartialEq, Eq, Debug, Structural)]
pub enum Ili9341Error {
    GpioError,
    SpiError,
    BoundsError,
}

/// The state of a display driver that has been initialised.
pub struct Enabled;

/// The state of a display driver that has not been initialised.
pub struct Disabled;

/// A state of the display driver.
pub trait State {}

impl State for Enabled {}

impl State for Disabled {}

/// The matrix row or column wired to each pin of the I/O expanders.
pub open spec fn pin_mapping(pin: int) -> u8 {
    if pin == 0 {
        0
    } else if pin == 1 {
        1
    } else if pin == 2 {
        2
    } else if pin == 3 {
        3
    } else if pin == 4 {
        6
    } else if pin == 5 {
        5
    } else {
        4
    }
}

fn map_pin(pin: u8) -> (r: u8)
    requires
        pin < 7,
    ensures
        r == pin_mapping(pin as int),
{
    match pin {
        0 => 0,
        1 => 1,
        2 => 2,
        3 => 3,
        4 => 6,
        5 => 5,
        _ => 4,
    }
}

/// The position of the highest set bit of a non-zero byte.
pub open spec fn highest_bit(b: int) -> int
    decreases b,
{
    if b <= 1 {
        0
    } else {
        1 + highest_bit(b / 2)
    }
}

proof fn lemma_highest_bit_nonneg(b: int)
    ensures
        highest_bit(b) >= 0,
    decreases b,
{
    if b > 1 {
        lemma_highest_bit_nonneg(b / 2);
    }
}

/// The key pressed in `row`, given the byte read back from the column expander while only that
/// row was driven low: `None` if no column reads low, else the mapped row and the mapped column
/// of the highest low pin. The highest pin must not be the eighth, which no column is wired to.
pub fn decode_row(row: u8, reading: u8) -> (r: Option<(u8, u8)>)
    requires
        row < 7,
        reading < 255 ==> highest_bit((!reading) as int) < 7,
    ensures
        reading == 255 ==> r is None,
        reading != 255 ==> r == Some((pin_mapping(row as int), pin_mapping(highest_bit((!reading) as int)))),
{
    let mut byte: u8 = !reading;
    proof {
        assert(reading == 255u8 <==> !reading == 0u8) by (bit_vector);
    }
    if byte == 0 {
        return None;
    }
    let ghost original = byte as int;
    let mut pressed_col: u8 = 0;
    loop
        invariant_except_break
            byte > 0,
            pressed_col + highest_bit(byte as int) == highest_bit(original),
            highest_bit(original) < 7,
        ensures
            pressed_col == highest_bit(original),
        decreases byte,
    {
        let before = byte;
        byte = byte >> 1;
        proof {
            assert(before >> 1u8 == before / 2) by (bit_vector);
        }
        if byte == 0 {
            break;
        }
        proof {
            assert(highest_bit(before as int) == 1 + highest_bit(byte as int));
            assert(highest_bit(byte as int) >= 0) by {
                lemma_highest_bit_nonneg(byte as int);
            }
        }
        pressed_col = pressed_col + 1;
    }
    Some((map_pin(row), map_pin(pressed_col)))
}

/// The debouncing state of the button matrix: the key held down, if any.
pub struct ButtonMatrixState {
    pub currently_pressed: Option<(u8, u8)>,
}

/// What the button matrix does after a first reading while a key is held.
#[derive(Clone, Copy, PartialEq, Eq, Debug, Structural)]
pub enum HeldReading {
    /// The held key is still down: there is no event.
    StillHeld,
    /// A different key is down: the held key is released now.
    Released(RawButtonEvent),
    /// No key is down: read again after the debounce delay to confirm the release.
    ConfirmRelease,
}

impl ButtonMatrixState {
    pub fn new() -> (s: Self)
        ensures
            s.currently_pressed is None,
    {
        ButtonMatrixState { currently_pressed: None }
    }

    /// Handles the first reading taken while `currently_pressed` holds a key.
    pub fn held_reading(&mut self, reading: Option<(u8, u8)>) -> (r: HeldReading)
        requires
            old(self).currently_pressed is Some,
        ensures
            ({
                let (row, col) = old(self).currently_pressed->0;
                match reading {
                    None => r == HeldReading::ConfirmRelease && final(self).currently_pressed == old(self).currently_pressed,
                    Some(k) => if k == (row, col) {
                        r == HeldReading::StillHeld && final(self).currently_pressed == old(self).currently_pressed
                    } else {
                        r == HeldReading::Released(RawButtonEvent::Release(row, col)) && final(self).currently_pressed is None
                    },
                }
            }),
    {
        let (row, col) = self.currently_pressed.unwrap();
        match reading {
            None => HeldReading::ConfirmRelease,
            Some((new_row, new_col)) => {
                if new_row != row || new_col != col {
                    self.currently_pressed = None;
                    HeldReading::Released(RawButtonEvent::Release(row, col))
                } else {
                    HeldReading::StillHeld
                }
            },
        }
    }

    /// Handles the reading taken after the debounce delay to confirm a release: the key is
    /// released if no key is down any more.
    pub fn confirm_release(&mut self, reading: Option<(u8, u8)>) -> (r: Option<RawButtonEvent>)
        requires
            old(self).currently_pressed is Some,
        ensures
            reading is None ==> r == Some(
                RawButtonEvent::Release(old(self).currently_pressed.unwrap().0, old(self).currently_pressed.unwrap().1),
            ) && final(self).currently_pressed is None,
            reading is Some ==> r is None && final(self).currently_pressed == old(self).currently_pressed,
    {
        let (row, col) = self.currently_pressed.unwrap();
        if reading.is_none() {
            self.currently_pressed = None;
            Some(RawButtonEvent::Release(row, col))
        } else {
            None
        }
    }

    /// Handles the reading taken after the debounce delay to confirm that `candidate` was
    /// pressed: it is pressed if the same key is still down.
    pub fn confirm_press(&mut self, candidate: (u8, u8), reading: Option<(u8, u8)>) -> (r: Option<RawButtonEvent>)
        ensures
            reading == Some(candidate) ==> r == Some(RawButtonEvent::Press(candidate.0, candidate.1))
                && final(self).currently_pressed == Some(candidate),
            reading != Some(candidate) ==> r is None && final(self).currently_pressed == old(self).currently_pressed,
    {
        match reading {
            Some(now) => {
                if now.0 == candidate.0 && now.1 == candidate.1 {
                    self.currently_pressed = Some(candidate);
                    Some(RawButtonEvent::Press(candidate.0, candidate.1))
                } else {
                    None
                }
            },
            None => None,
        }
    }
}

} // verus!
