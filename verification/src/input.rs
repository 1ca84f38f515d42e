use vstd::prelude::*;

verus! {

/// A physical key of the calculator.
#[derive(PartialEq, Eq, Debug, Copy, Clone, Structural)]
pub enum ButtonInput {
    NoKey,
    Menu,
    Exe,
    Shift,
    List,
    Text,
    MoveLeft,
    MoveRight,
    MoveUp,
    MoveDown,
    Delete,
    Clear,
    Digit(u8),
    Point,
    Parentheses,
    Add,
    Subtract,
    Multiply,
    Fraction,
    Power,
    Sqrt,
}

impl ButtonInput {
    /// The digit of a digit key.
    pub fn as_digit(&self) -> (r: Option<u8>)
        ensures
            r == (match *self {
                ButtonInput::Digit(d) => Some(d),
                _ => None::<u8>,
            }),
    {
        match *self {
            ButtonInput::Digit(d) => Some(d),
            _ => None,
        }
    }
}

/// A key being pressed or released.
#[derive(PartialEq, Eq, Clone, Copy, Debug, Structural)]
pub enum ButtonEvent {
    Press(ButtonInput),
    Release(ButtonInput),
}

/// A source of key events, such as the button matrix or a simulator window.
pub trait ButtonsInterface {
    fn wait_event(&mut self) -> ButtonEvent;

    fn poll_event(&mut self) -> Option<ButtonEvent>;
}

/// An input as the operating system hands it to applications.
#[derive(PartialEq, Eq, Clone, Copy, Debug, Structural)]
pub enum OSInput {
    Button(ButtonInput),
    ShiftedButton(ButtonInput),
    TextMultiTapNew(char),
    TextMultiTapCycle(char),
}

} // verus!
