use vstd::prelude::*;
use crate::input::{ButtonInput, OSInput};

verus! {

/// How long, in milliseconds, after a key press the same key still cycles the letter it entered.
pub const PRESS_COOLDOWN_MS: u64 = 750;

/// The letters a digit key cycles through. The keys are laid out upside down relative to a phone
/// keypad, so the digits on the top row carry the letters of a phone's top row. Keys 0 and 7
/// carry no letters.
pub open spec fn letters(digit: u8) -> Seq<char> {
    match digit {
        1 => seq!['p', 'q', 'r', 's'],
        2 => seq!['t', 'u', 'v'],
        3 => seq!['w', 'x', 'y', 'z'],
        4 => seq!['g', 'h', 'i'],
        5 => seq!['j', 'k', 'l'],
        6 => seq!['m', 'n', 'o'],
        8 => seq!['a', 'b', 'c'],
        9 => seq!['d', 'e', 'f'],
        _ => Seq::empty(),
    }
}

/// The upper-case form of an ASCII lower-case letter; other characters are unchanged.
pub open spec fn ascii_upper(c: char) -> char {
    if 'a' <= c <= 'z' {
        ((c as int) - 32) as char
    } else {
        c
    }
}

/// The `index`th letter of `digit`, in upper case when `shifted`.
pub open spec fn letter(digit: u8, index: int, shifted: bool) -> char {
    if shifted {
        ascii_upper(letters(digit)[index])
    } else {
        letters(digit)[index]
    }
}

/// The digit of a digit key press, shifted or not.
pub open spec fn pressed_digit(input: OSInput) -> Option<u8> {
    match input {
        OSInput::Button(ButtonInput::Digit(d)) => Some(d),
        OSInput::ShiftedButton(ButtonInput::Digit(d)) => Some(d),
        _ => None,
    }
}

pub(crate) fn letter_at(digit: u8, index: usize, shifted: bool) -> (c: char)
    requires
        index < letters(digit).len(),
    ensures
        c == letter(digit, index as int, shifted),
{
    match (digit, index, shifted) {
        (1, 0, false) => 'p',
        (1, 0, true) => 'P',
        (1, 1, false) => 'q',
        (1, 1, true) => 'Q',
        (1, 2, false) => 'r',
        (1, 2, true) => 'R',
        (1, 3, false) => 's',
        (1, 3, true) => 'S',
        (2, 0, false) => 't',
        (2, 0, true) => 'T',
        (2, 1, false) => 'u',
        (2, 1, true) => 'U',
        (2, 2, false) => 'v',
        (2, 2, true) => 'V',
        (3, 0, false) => 'w',
        (3, 0, true) => 'W',
        (3, 1, false) => 'x',
        (3, 1, true) => 'X',
        (3, 2, false) => 'y',
        (3, 2, true) => 'Y',
        (3, 3, false) => 'z',
        (3, 3, true) => 'Z',
        (4, 0, false) => 'g',
        (4, 0, true) => 'G',
        (4, 1, false) => 'h',
        (4, 1, true) => 'H',
        (4, 2, false) => 'i',
        (4, 2, true) => 'I',
        (5, 0, false) => 'j',
        (5, 0, true) => 'J',
        (5, 1, false) => 'k',
        (5, 1, true) => 'K',
        (5, 2, false) => 'l',
        (5, 2, true) => 'L',
        (6, 0, false) => 'm',
        (6, 0, true) => 'M',
        (6, 1, false) => 'n',
        (6, 1, true) => 'N',
        (6, 2, false) => 'o',
        (6, 2, true) => 'O',
        (8, 0, false) => 'a',
        (8, 0, true) => 'A',
        (8, 1, false) => 'b',
        (8, 1, true) => 'B',
        (8, 2, false) => 'c',
        (8, 2, true) => 'C',
        (9, 0, false) => 'd',
        (9, 0, true) => 'D',
        (9, 1, false) => 'e',
        (9, 1, true) => 'E',
        (9, 2, false) => 'f',
        (9, 2, true) => 'F',
        _ => ' ',
    }
}

pub(crate) fn letter_count(digit: u8) -> (n: usize)
    ensures
        n == letters(digit).len(),
{
    match digit {
        1 | 3 => 4,
        2 | 4 | 5 | 6 | 8 | 9 => 3,
        _ => 0,
    }
}

/// Turns presses of the digit keys into letters, as on a phone keypad: pressing a key enters its
/// first letter, and pressing it again soon after replaces that letter with the next one.
pub struct MultiTapState {
    current_index: Option<usize>,
    current_digit: Option<u8>,
    current_shifted: bool,
    last_press_ms: u64,
}

impl MultiTapState {
    #[verifier::type_invariant]
    spec fn inv(&self) -> bool {
        &&& (self.current_digit is Some <==> self.current_index is Some)
        &&& (self.current_digit matches Some(d) ==> self.current_index->0 < letters(d).len())
    }

    /// The digit whose letters are being cycled, if any.
    pub closed spec fn digit(&self) -> Option<u8> {
        self.current_digit
    }

    /// The position of the letter last entered in its digit's list, if any.
    pub closed spec fn index(&self) -> Option<usize> {
        self.current_index
    }

    /// Whether the letter being cycled is in upper case.
    pub closed spec fn shifted(&self) -> bool {
        self.current_shifted
    }

    /// The time, in milliseconds, of the last digit press.
    pub closed spec fn last_press(&self) -> u64 {
        self.last_press_ms
    }

    /// What handling `input` at time `now_ms` does: `next` is the state after it and `r` what
    /// it gives.
    pub open spec fn tapped(&self, next: &MultiTapState, input: OSInput, now_ms: u64, r: Option<OSInput>) -> bool {
        &&& pressed_digit(input) is None ==> {
            &&& r is None
            &&& next.digit() == self.digit()
            &&& next.index() == self.index()
            &&& next.shifted() == self.shifted()
            &&& next.last_press() == self.last_press()
        }
        &&& pressed_digit(input) matches Some(d) ==> {
            let expired = now_ms - self.last_press() > PRESS_COOLDOWN_MS;
            let digit = if expired { None } else { self.digit() };
            let index = if expired { None } else { self.index() };
            let shifted = if expired { false } else { self.shifted() };
            let shift = input is ShiftedButton;
            &&& next.last_press() == now_ms
            &&& digit == Some(d) ==> {
                let cycled = ((index->0 + 1) % (letters(d).len() as int)) as usize;
                &&& next.digit() == Some(d)
                &&& next.index() == Some(cycled)
                &&& next.shifted() == shifted
                &&& r == Some(OSInput::TextMultiTapCycle(letter(d, cycled as int, shifted)))
            }
            &&& digit != Some(d) && letters(d).len() == 0 ==> {
                &&& r is None
                &&& next.digit() == digit
                &&& next.index() == index
                &&& next.shifted() == shifted
            }
            &&& digit != Some(d) && letters(d).len() > 0 ==> {
                &&& next.digit() == Some(d)
                &&& next.index() == Some(0usize)
                &&& next.shifted() == shift
                &&& r == Some(OSInput::TextMultiTapNew(letter(d, 0, shift)))
            }
        }
    }

    /// A state with no letter being cycled.
    pub fn new() -> (s: Self)
        ensures
            s.digit() is None,
            s.index() is None,
            !s.shifted(),
            s.last_press() == 0,
    {
        MultiTapState { current_index: None, current_digit: None, current_shifted: false, last_press_ms: 0 }
    }

    /// Handles an input at time `now_ms`. A digit key gives the letter to insert, or to put in
    /// place of the letter last inserted; any other input, or a key without letters, gives
    /// `None`. Time must not run backwards between digit presses.
    pub fn input(&mut self, input: OSInput, now_ms: u64) -> (r: Option<OSInput>)
        requires
            pressed_digit(input) matches Some(d) ==> d <= 9 && now_ms >= old(self).last_press(),
        ensures
            old(self).tapped(&*final(self), input, now_ms, r),

    {
        proof {
            use_type_invariant(&*self);
        }
        let shift = match input {
            OSInput::ShiftedButton(_) => true,
            _ => false,
        };
        let digit = match input {
            OSInput::Button(ButtonInput::Digit(d)) => d,
            OSInput::ShiftedButton(ButtonInput::Digit(d)) => d,
            _ => {
                return None;
            },
        };
        if now_ms - self.last_press_ms > PRESS_COOLDOWN_MS {
            self.drop_keypress();
        }
        self.last_press_ms = now_ms;
        if let Some(current_digit) = self.current_digit {
            if digit == current_digit {
                let n = letter_count(digit);
                let next = (self.current_index.unwrap() + 1) % n;
                let shifted = self.current_shifted;
                *self = MultiTapState {
                    current_index: Some(next),
                    current_digit: Some(digit),
                    current_shifted: shifted,
                    last_press_ms: now_ms,
                };
                let new_char = letter_at(digit, next, shifted);
                return Some(OSInput::TextMultiTapCycle(new_char));
            }
        }
        if letter_count(digit) == 0 {
            return None;
        }
        *self = MultiTapState {
            current_index: Some(0),
            current_digit: Some(digit),
            current_shifted: shift,
            last_press_ms: now_ms,
        };
        let new_char = letter_at(digit, 0, shift);
        Some(OSInput::TextMultiTapNew(new_char))
    }

    /// Forgets the letter being cycled, so that the next digit press starts a new letter.
    pub fn drop_keypress(&mut self)
        ensures
            final(self).digit() is None,
            final(self).index() is None,
            !final(self).shifted(),
            final(self).last_press() == old(self).last_press(),
    {
        let last_press_ms = self.last_press_ms;
        *self = MultiTapState {
            current_index: None,
            current_digit: None,
            current_shifted: false,
            last_press_ms,
        };
    }
}


/// What the `k`th press (from 0) of a run of presses of `d` gives: the first letter, new; then
/// each following letter in turn, replacing the one before, round and round; in upper case when
/// the run's first press was shifted.
pub open spec fn run_result(d: u8, k: int, shifted: bool) -> Option<OSInput> {
    if k == 0 {
        Some(OSInput::TextMultiTapNew(letter(d, 0, shifted)))
    } else {
        Some(OSInput::TextMultiTapCycle(letter(d, k % (letters(d).len() as int), shifted)))
    }
}

/// Whether `states`, `inputs`, `times` and `results` record a run of presses of the digit `d`:
/// state `k + 1` and result `k` are what handling input `k` at time `k` in state `k` gives; the
/// run begins with no letter of `d` being cycled (or after the cooldown), and each press
/// follows the one before within the cooldown.
pub open spec fn is_run(states: Seq<MultiTapState>, inputs: Seq<OSInput>, times: Seq<u64>, results: Seq<Option<OSInput>>, d: u8) -> bool {
    &&& states.len() == inputs.len() + 1
    &&& times.len() == inputs.len()
    &&& results.len() == inputs.len()
    &&& forall|k: int| 0 <= k < inputs.len() ==> #[trigger] states[k].tapped(&states[k + 1], inputs[k], times[k], results[k])
    &&& forall|k: int| 0 <= k < inputs.len() ==> pressed_digit(#[trigger] inputs[k]) == Some(d)
    &&& inputs.len() > 0 ==> (times[0] - states[0].last_press() > PRESS_COOLDOWN_MS || states[0].digit() != Some(d))
    &&& forall|k: int| 0 < k < inputs.len() ==> #[trigger] times[k] - times[k - 1] <= PRESS_COOLDOWN_MS
}

proof fn lemma_run_prefix(states: Seq<MultiTapState>, inputs: Seq<OSInput>, times: Seq<u64>, results: Seq<Option<OSInput>>, d: u8, n: int)
    requires
        letters(d).len() > 0,
        is_run(states, inputs, times, results, d),
        1 <= n <= inputs.len(),
    ensures
        states[n].digit() == Some(d),
        states[n].index() == Some(((n - 1) % (letters(d).len() as int)) as usize),
        states[n].shifted() == inputs[0] is ShiftedButton,
        states[n].last_press() == times[n - 1],
        results[n - 1] == run_result(d, n - 1, inputs[0] is ShiftedButton),
    decreases n,
{
    let len = letters(d).len() as int;
    let k = n - 1;
    assert(states[k].tapped(&states[k + 1], inputs[k], times[k], results[k]));
    assert(k + 1 == n);
    assert(pressed_digit(inputs[k]) == Some(d));
    if n == 1 {
        assert(0int % len == 0) by (nonlinear_arith) requires len > 0;
    } else {
        lemma_run_prefix(states, inputs, times, results, d, n - 1);
        assert(times[k] - times[k - 1] <= PRESS_COOLDOWN_MS);
        let a = n - 2;
        vstd::arithmetic::div_mod::lemma_add_mod_noop(a, 1, len);
        assert(len >= 2) by {
            assert(d == 1 || d == 2 || d == 3 || d == 4 || d == 5 || d == 6 || d == 8 || d == 9);
        }
        vstd::arithmetic::div_mod::lemma_small_mod(1nat, len as nat);
        assert(0 <= a % len < len) by {
            vstd::arithmetic::div_mod::lemma_mod_bound(a, len);
        }
    }
}

/// A run of presses of a key with letters gives its first letter and then each next one in turn,
/// round and round, replacing the last, in upper case when the run began shifted.
pub proof fn lemma_multi_tap_run(states: Seq<MultiTapState>, inputs: Seq<OSInput>, times: Seq<u64>, results: Seq<Option<OSInput>>, d: u8)
    requires
        letters(d).len() > 0,
        is_run(states, inputs, times, results, d),
    ensures
        forall|k: int| 0 <= k < inputs.len() ==> #[trigger] results[k] == run_result(d, k, inputs[0] is ShiftedButton),
{
    assert forall|k: int| 0 <= k < inputs.len() implies #[trigger] results[k] == run_result(d, k, inputs[0] is ShiftedButton) by {
        lemma_run_prefix(states, inputs, times, results, d, k + 1);
    }
}

/// From a state in which the letter being cycled is one of its key's, keys without letters
/// (0 and 7) give nothing, and any input that is not a digit gives nothing
/// and leaves the letter being cycled as it was.
pub proof fn lemma_multi_tap_no_letters(state: MultiTapState, next: MultiTapState, input: OSInput, now_ms: u64, r: Option<OSInput>)
    requires
        state.tapped(&next, input, now_ms, r),
        state.digit() matches Some(dd) ==> state.index() matches Some(i) && i < letters(dd).len(),
        pressed_digit(input) is None || pressed_digit(input) == Some(0u8) || pressed_digit(input) == Some(7u8),
    ensures
        r is None,
        pressed_digit(input) is None ==> next.digit() == state.digit() && next.index() == state.index()
            && next.shifted() == state.shifted() && next.last_press() == state.last_press(),
{
}

} // verus!
