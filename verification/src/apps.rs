use vstd::prelude::*;
use crate::input::{ButtonInput, OSInput};
use crate::multi_tap::{letter, letters};
use crate::decimal::{decimal, push_decimal};
use crate::display::Colour;
use crate::font::AsciiFont;
use crate::os::{printed, title_drawn, title_ok, ApplicationInfo, OperatingSystem};
use crate::text::{centred_offset, lemma_text_drawn_len, lemma_text_ok_any_pixels, measurable, text_ok, text_width};
use crate::wrap::push_char;
use vstd::string::StringExecFns;

verus! {

/// How long, in milliseconds, a key press of the T9 test keeps cycling its letter.
pub const T9_PRESS_COOLDOWN_MS: u32 = 750;

/// A test of phone-style text entry: digit keys type letters, pressing the same key again soon
/// after cycles the letter just typed, and DEL removes the last letter.
pub struct T9Application {
    text: Vec<char>,
    current_index: Option<usize>,
    current_digit: Option<u8>,
    last_press_ms: u32,
}

impl T9Application {
    /// How the launcher lists this application: as "T9 Test", shown.
    pub fn info() -> (r: ApplicationInfo)
        ensures
            r.name@ == "T9 Test"@,
            r.visible,
    {
        ApplicationInfo { name: "T9 Test".to_owned(), visible: true }
    }

    #[verifier::type_invariant]
    spec fn inv(&self) -> bool {
        &&& (self.current_digit is Some <==> self.current_index is Some)
        &&& (self.current_digit matches Some(d) ==> self.current_index->0 < letters(d).len())
    }

    /// The text typed so far.
    pub closed spec fn typed(&self) -> Seq<char> {
        self.text@
    }

    /// The digit whose letters are being cycled, if any.
    pub closed spec fn digit(&self) -> Option<u8> {
        self.current_digit
    }

    /// The position of the last letter typed in its digit's list, if any.
    pub closed spec fn index(&self) -> Option<usize> {
        self.current_index
    }

    /// The time, in milliseconds, of the last digit press.
    pub closed spec fn last_press(&self) -> u32 {
        self.last_press_ms
    }

    pub fn new() -> (a: Self)
        ensures
            a.typed().len() == 0,
            a.digit() is None,
            a.index() is None,
            a.last_press() == 0,
    {
        T9Application { text: Vec::new(), current_index: None, current_digit: None, last_press_ms: 0 }
    }

    /// The digit whose letters are being cycled, if any.
    pub fn current_digit(&self) -> (r: Option<u8>)
        ensures
            r == self.digit(),
    {
        self.current_digit
    }

    /// The time, in milliseconds, of the last digit press.
    pub fn last_press_ms(&self) -> (r: u32)
        ensures
            r == self.last_press(),
    {
        self.last_press_ms
    }

    /// The text typed so far.
    pub fn text(&self) -> (r: &Vec<char>)
        ensures
            r@ == self.typed(),
    {
        &self.text
    }

    /// Handles a key pressed at time `now_ms`. Cycling a letter needs a letter to replace; time
    /// must not run backwards between digit presses.
    pub fn handle_input(&mut self, input: ButtonInput, now_ms: u32)
        requires
            input matches ButtonInput::Digit(d) ==> {
                &&& d <= 9
                &&& now_ms >= old(self).last_press()
                &&& (now_ms - old(self).last_press() <= T9_PRESS_COOLDOWN_MS && old(self).digit() == Some(d)
                    ==> old(self).typed().len() > 0)
            },
        ensures
            input matches ButtonInput::Digit(d) ==> ({
                let expired = now_ms - old(self).last_press() > T9_PRESS_COOLDOWN_MS;
                let digit = if expired { None } else { old(self).digit() };
                let index = if expired { None } else { old(self).index() };
                &&& final(self).last_press() == now_ms
                &&& digit == Some(d) ==> {
                    let cycled = ((index->0 + 1) % (letters(d).len() as int)) as usize;
                    &&& final(self).digit() == Some(d)
                    &&& final(self).index() == Some(cycled)
                    &&& final(self).typed() == old(self).typed().drop_last().push(letter(d, cycled as int, false))
                }
                &&& digit != Some(d) && letters(d).len() == 0 ==> {
                    &&& final(self).digit() == digit
                    &&& final(self).index() == index
                    &&& final(self).typed() == old(self).typed()
                }
                &&& digit != Some(d) && letters(d).len() > 0 ==> {
                    &&& final(self).digit() == Some(d)
                    &&& final(self).index() == Some(0usize)
                    &&& final(self).typed() == old(self).typed().push(letter(d, 0, false))
                }
            }),
            input == ButtonInput::Delete ==> final(self).typed() == (if old(self).typed().len() > 0 {
                old(self).typed().drop_last()
            } else {
                old(self).typed()
            }) && final(self).digit() == old(self).digit() && final(self).index() == old(self).index()
                && final(self).last_press() == old(self).last_press(),
            !(input is Digit) && input != ButtonInput::Delete ==> final(self).typed() == old(self).typed()
                && final(self).digit() == old(self).digit() && final(self).index() == old(self).index()
                && final(self).last_press() == old(self).last_press(),
    {
        proof {
            use_type_invariant(&*self);
        }
        match input {
            ButtonInput::Digit(digit) => {
                let mut current_digit = self.current_digit;
                let mut current_index = self.current_index;
                if now_ms - self.last_press_ms > T9_PRESS_COOLDOWN_MS {
                    current_digit = None;
                    current_index = None;
                }
                let mut text: Vec<char> = Vec::new();
                core::mem::swap(&mut text, &mut self.text);
                if let Some(d) = current_digit {
                    if d == digit {
                        let n = crate::multi_tap::letter_count(digit);
                        let next = (current_index.unwrap() + 1) % n;
                        text.pop();
                        text.push(crate::multi_tap::letter_at(digit, next, false));
                        *self = T9Application {
                            text,
                            current_index: Some(next),
                            current_digit: Some(digit),
                            last_press_ms: now_ms,
                        };
                        return;
                    }
                }
                if crate::multi_tap::letter_count(digit) == 0 {
                    *self = T9Application { text, current_index, current_digit, last_press_ms: now_ms };
                    return;
                }
                text.push(crate::multi_tap::letter_at(digit, 0, false));
                *self = T9Application { text, current_index: Some(0), current_digit: Some(digit), last_press_ms: now_ms };
            },
            ButtonInput::Delete => {
                let mut text: Vec<char> = Vec::new();
                core::mem::swap(&mut text, &mut self.text);
                if text.len() > 0 {
                    text.pop();
                }
                self.text = text;
            },
            _ => {},
        }
    }
}

/// The number of bytes a storage or memory viewer shows at once.
pub const SHOW_BYTES: u16 = 64;

/// What the raw storage viewer asks of its caller after an input.
#[derive(PartialEq, Eq, Copy, Clone, Debug, Structural)]
pub enum StorageViewerAction {
    /// Nothing more.
    Nothing,
    /// Open the viewer's menu.
    OpenMenu,
}

/// A viewer of the raw storage device, a page of `SHOW_BYTES` bytes at a time.
pub struct StorageApplication {
    pub address: u16,
}

impl StorageApplication {
    /// How the launcher lists this application: as "Raw Storage", shown.
    pub fn info() -> (r: ApplicationInfo)
        ensures
            r.name@ == "Raw Storage"@,
            r.visible,
    {
        ApplicationInfo { name: "Raw Storage".to_owned(), visible: true }
    }

    pub fn new() -> (a: Self)
        ensures
            a.address == 0,
    {
        StorageApplication { address: 0 }
    }

    /// The first and last addresses shown.
    pub fn shown_range(&self) -> (r: (u16, u16))
        requires
            self.address + SHOW_BYTES <= u16::MAX,
        ensures
            r == (self.address, (self.address + SHOW_BYTES - 1) as u16),
    {
        (self.address, self.address + SHOW_BYTES - 1)
    }

    /// Handles an input: the up and down keys move a page back or on, and LIST asks for the menu.
    /// Moving must stay within the 16-bit address space.
    pub fn handle_input(&mut self, input: OSInput) -> (r: StorageViewerAction)
        requires
            input == OSInput::Button(ButtonInput::MoveDown) ==> old(self).address + SHOW_BYTES <= u16::MAX,
            input == OSInput::Button(ButtonInput::MoveUp) ==> old(self).address >= SHOW_BYTES,
        ensures
            input == OSInput::Button(ButtonInput::MoveDown) ==> final(self).address == old(self).address + SHOW_BYTES
                && r == StorageViewerAction::Nothing,
            input == OSInput::Button(ButtonInput::MoveUp) ==> final(self).address == old(self).address - SHOW_BYTES
                && r == StorageViewerAction::Nothing,
            input == OSInput::Button(ButtonInput::List) ==> final(self).address == old(self).address
                && r == StorageViewerAction::OpenMenu,
            input != OSInput::Button(ButtonInput::MoveDown) && input != OSInput::Button(ButtonInput::MoveUp)
                && input != OSInput::Button(ButtonInput::List) ==> final(self).address == old(self).address
                && r == StorageViewerAction::Nothing,
    {
        match input {
            OSInput::Button(ButtonInput::MoveDown) => {
                self.address = self.address + SHOW_BYTES;
                StorageViewerAction::Nothing
            },
            OSInput::Button(ButtonInput::MoveUp) => {
                self.address = self.address - SHOW_BYTES;
                StorageViewerAction::Nothing
            },
            OSInput::Button(ButtonInput::List) => StorageViewerAction::OpenMenu,
            _ => StorageViewerAction::Nothing,
        }
    }

    /// Jumps to the page holding `address`.
    pub fn jump_to(&mut self, address: u16)
        ensures
            final(self).address == (address / SHOW_BYTES) * SHOW_BYTES,
            final(self).address <= address < final(self).address + SHOW_BYTES,
    {
        self.address = (address / SHOW_BYTES) * SHOW_BYTES;
    }
}

/// A viewer of the storage device driven by raw key presses, a page of `SHOW_BYTES` bytes at a
/// time.
pub struct MemoryApplication {
    pub address: u16,
}

impl MemoryApplication {
    /// How the launcher lists this application: as "Memory", shown.
    pub fn info() -> (r: ApplicationInfo)
        ensures
            r.name@ == "Memory"@,
            r.visible,
    {
        ApplicationInfo { name: "Memory".to_owned(), visible: true }
    }

    pub fn new() -> (a: Self)
        ensures
            a.address == 0,
    {
        MemoryApplication { address: 0 }
    }

    /// Handles a key: up and down move a page back or on, within the 16-bit address space.
    pub fn handle_input(&mut self, input: ButtonInput)
        requires
            input == ButtonInput::MoveDown ==> old(self).address + SHOW_BYTES <= u16::MAX,
            input == ButtonInput::MoveUp ==> old(self).address >= SHOW_BYTES,
        ensures
            final(self).address == if input == ButtonInput::MoveDown {
                old(self).address + SHOW_BYTES
            } else if input == ButtonInput::MoveUp {
                old(self).address - SHOW_BYTES
            } else {
                old(self).address as int
            },
    {
        match input {
            ButtonInput::MoveDown => self.address = self.address + SHOW_BYTES,
            ButtonInput::MoveUp => self.address = self.address - SHOW_BYTES,
            _ => {},
        }
    }
}

/// The cursor and pixels of a display `width` by `height` whose cursor and pixels were `state`,
/// after it is filled black and the title bar with `title` is drawn.
pub open spec fn titled_blank<F: AsciiFont>(font: &F, width: int, height: int, state: (int, int, Seq<Colour>), title: Seq<char>, text_mode: bool, shift: bool) -> (int, int, Seq<Colour>) {
    let blank = (state.0, state.1, Seq::new((width * height) as nat, |i: int| Colour(0)));
    title_drawn(font, width, height, blank, title, text_mode, shift)
}

/// Fills the display black and draws the title bar with `title`.
pub(crate) fn clear_with_title<F: AsciiFont>(os: &mut OperatingSystem, font: &F, title: &str)
    requires
        old(os).display_sprite.wf(),
        title_ok(
            font,
            old(os).display_sprite.width as int,
            old(os).display_sprite.height as int,
            old(os).display_sprite.data@,
            title@,
            old(os).text_mode,
            old(os).input_shift,
        ),
    ensures
        final(os).display_sprite.wf(),
        final(os).display_sprite.width == old(os).display_sprite.width,
        final(os).display_sprite.height == old(os).display_sprite.height,
        final(os).display_sprite.text_state() == titled_blank(
            font,
            old(os).display_sprite.width as int,
            old(os).display_sprite.height as int,
            old(os).display_sprite.text_state(),
            title@,
            old(os).text_mode,
            old(os).input_shift,
        ),
        final(os).filesystem == old(os).filesystem,
        final(os).text_mode == old(os).text_mode,
        final(os).input_shift == old(os).input_shift,
        final(os).showing_menu == old(os).showing_menu,
        final(os).active_application_index == old(os).active_application_index,
{
    let ghost w = os.display_sprite.width as int;
    let ghost h = os.display_sprite.height as int;
    let ghost d0 = os.display_sprite.data@;
    os.display_sprite.fill(Colour::black());
    let ghost blank = os.display_sprite.text_state();
    assert(blank.2 =~= Seq::new((w * h) as nat, |i: int| Colour(0)));
    proof {
        lemma_text_ok_any_pixels(font, w, 5, 7, d0, blank.2, title@);
        if old(os).text_mode {
            lemma_text_ok_any_pixels(font, w, 149, 6, d0, blank.2, "TEXT"@);
            lemma_text_ok_any_pixels(font, w, 153, 6, d0, blank.2, "text"@);
        }
    }
    os.ui_draw_title(font, title);
}

/// The character of the hexadecimal digit `d`, in lower case.
pub open spec fn hex_digit(d: int) -> char {
    if d < 10 {
        (d + 48) as char
    } else {
        (d + 87) as char
    }
}

/// A byte as the viewer shows it: two hexadecimal digits and a space.
pub open spec fn byte_text(b: u8) -> Seq<char> {
    seq![hex_digit(b as int / 16), hex_digit(b as int % 16), ' ']
}

/// The first `n` bytes as the viewer shows them, eight to a line.
pub open spec fn bytes_text(bytes: Seq<u8>, n: int) -> Seq<char>
    decreases n,
{
    if n <= 0 {
        Seq::empty()
    } else {
        let line_end = if (n - 1) % 8 == 7 { seq!['\n'] } else { Seq::empty() };
        bytes_text(bytes, n - 1) + byte_text(bytes[n - 1]) + line_end
    }
}

/// What the viewer prints for the page at `address` holding `bytes`: the range of addresses, a
/// blank line, then the bytes.
pub open spec fn storage_text(address: u16, bytes: Seq<u8>) -> Seq<char> {
    "Address range "@ + decimal(address as nat) + seq!['-'] + decimal((address + SHOW_BYTES - 1) as nat)
        + seq!['\n', '\n', '\n'] + bytes_text(bytes, SHOW_BYTES as int)
}

/// The lower-case hexadecimal digit for `d`.
fn hex_char(d: u8) -> (c: char)
    requires
        d < 16,
    ensures
        c == hex_digit(d as int),
{
    if d < 10 {
        (d + 48) as char
    } else {
        (d + 87) as char
    }
}

impl StorageApplication {
    /// Draws the viewer: a black display, the title bar reading "Raw Storage", and from `(0, 50)`
    /// the range of addresses shown and `bytes`, the page read from the storage device, in
    /// hexadecimal eight to a line.
    pub fn draw<F: AsciiFont>(&self, os: &mut OperatingSystem, font: &F, bytes: &Vec<u8>)
        requires
            bytes@.len() == SHOW_BYTES,
            self.address + SHOW_BYTES <= u16::MAX,
            old(os).display_sprite.wf(),
            title_ok(
                font,
                old(os).display_sprite.width as int,
                old(os).display_sprite.height as int,
                old(os).display_sprite.data@,
                "Raw Storage"@,
                old(os).text_mode,
                old(os).input_shift,
            ),
            text_ok(font, old(os).display_sprite.width as int, (0, 50, old(os).display_sprite.data@), storage_text(self.address, bytes@)),
        ensures
            final(os).display_sprite.wf(),
            final(os).display_sprite.width == old(os).display_sprite.width,
            final(os).display_sprite.height == old(os).display_sprite.height,
            final(os).display_sprite.text_state() == printed(
                font,
                old(os).display_sprite.width as int,
                titled_blank(
                    font,
                    old(os).display_sprite.width as int,
                    old(os).display_sprite.height as int,
                    old(os).display_sprite.text_state(),
                    "Raw Storage"@,
                    old(os).text_mode,
                    old(os).input_shift,
                ),
                0,
                50,
                storage_text(self.address, bytes@),
            ),
            final(os).filesystem == old(os).filesystem,
    {
        let ghost w = os.display_sprite.width as int;
        let ghost d0 = os.display_sprite.data@;
        clear_with_title(os, font, "Raw Storage");
        let mut text = String::new();
        text.append("Address range ");
        push_decimal(&mut text, self.address as u64);
        push_char(&mut text, '-');
        push_decimal(&mut text, (self.address + SHOW_BYTES - 1) as u64);
        push_char(&mut text, '\n');
        push_char(&mut text, '\n');
        push_char(&mut text, '\n');
        let ghost header = text@;
        let mut i: usize = 0;
        while i < bytes.len()
            invariant
                bytes@.len() == SHOW_BYTES,
                i <= bytes@.len(),
                text@ == header + bytes_text(bytes@, i as int),
            decreases bytes@.len() - i,
        {
            let b = bytes[i];
            let ghost before = text@;
            push_char(&mut text, hex_char(b / 16));
            push_char(&mut text, hex_char(b % 16));
            push_char(&mut text, ' ');
            if i % 8 == 7 {
                push_char(&mut text, '\n');
            }
            assert(text@ =~= header + bytes_text(bytes@, i + 1));
            i = i + 1;
        }
        assert(text@ =~= storage_text(self.address, bytes@));
        let ghost d1 = os.display_sprite.data@;
        proof {
            lemma_text_ok_any_pixels(font, w, 0, 50, d0, d1, text@);
            lemma_text_drawn_len(font, w, (0, 50, d1), text@);
        }
        os.display_sprite.print_at(font, 0, 50, text.as_str());
    }
}

impl T9Application {
    /// Draws the test: a black display, the title bar reading "T9", and the text typed so far at
    /// `(10, 50)`.
    pub fn draw<F: AsciiFont>(&self, os: &mut OperatingSystem, font: &F)
        requires
            old(os).display_sprite.wf(),
            title_ok(
                font,
                old(os).display_sprite.width as int,
                old(os).display_sprite.height as int,
                old(os).display_sprite.data@,
                "T9"@,
                old(os).text_mode,
                old(os).input_shift,
            ),
            text_ok(font, old(os).display_sprite.width as int, (10, 50, old(os).display_sprite.data@), self.typed()),
        ensures
            final(os).display_sprite.wf(),
            final(os).display_sprite.width == old(os).display_sprite.width,
            final(os).display_sprite.height == old(os).display_sprite.height,
            final(os).display_sprite.text_state() == printed(
                font,
                old(os).display_sprite.width as int,
                titled_blank(
                    font,
                    old(os).display_sprite.width as int,
                    old(os).display_sprite.height as int,
                    old(os).display_sprite.text_state(),
                    "T9"@,
                    old(os).text_mode,
                    old(os).input_shift,
                ),
                10,
                50,
                self.typed(),
            ),
            final(os).filesystem == old(os).filesystem,
    {
        let ghost w = os.display_sprite.width as int;
        let ghost d0 = os.display_sprite.data@;
        clear_with_title(os, font, "T9");
        let mut text = String::new();
        let mut i: usize = 0;
        while i < self.text.len()
            invariant
                i <= self.text@.len(),
                text@ == self.text@.subrange(0, i as int),
            decreases self.text@.len() - i,
        {
            push_char(&mut text, self.text[i]);
            assert(text@ =~= self.text@.subrange(0, i + 1));
            i = i + 1;
        }
        assert(text@ =~= self.typed());
        let ghost d1 = os.display_sprite.data@;
        proof {
            lemma_text_ok_any_pixels(font, w, 10, 50, d0, d1, text@);
            lemma_text_drawn_len(font, w, (10, 50, d1), text@);
        }
        os.display_sprite.print_at(font, 10, 50, text.as_str());
    }
}

impl OperatingSystem {
    /// Shows that the USB mass storage is being saved: a black display, the title bar reading "USB
    /// Mass Storage", and "Saving..." centred across the display 100 pixels down. The caller
    /// pushes the display to the screen.
    pub fn save_usb_mass_storage<F: AsciiFont>(&mut self, font: &F)
        requires
            old(self).display_sprite.wf(),
            title_ok(
                font,
                old(self).display_sprite.width as int,
                old(self).display_sprite.height as int,
                old(self).display_sprite.data@,
                "USB Mass Storage"@,
                old(self).text_mode,
                old(self).input_shift,
            ),
            measurable(font, "Saving..."@),
            i16::MIN <= old(self).display_sprite.width as i16 - text_width(font, "Saving..."@) <= i16::MAX,
            text_ok(
                font,
                old(self).display_sprite.width as int,
                (centred_offset(font, old(self).display_sprite.width, "Saving..."@), 100, old(self).display_sprite.data@),
                "Saving..."@,
            ),
        ensures
            final(self).display_sprite.wf(),
            final(self).display_sprite.width == old(self).display_sprite.width,
            final(self).display_sprite.height == old(self).display_sprite.height,
            final(self).display_sprite.text_state() == printed(
                font,
                old(self).display_sprite.width as int,
                titled_blank(
                    font,
                    old(self).display_sprite.width as int,
                    old(self).display_sprite.height as int,
                    old(self).display_sprite.text_state(),
                    "USB Mass Storage"@,
                    old(self).text_mode,
                    old(self).input_shift,
                ),
                centred_offset(font, old(self).display_sprite.width, "Saving..."@),
                100,
                "Saving..."@,
            ),
            final(self).filesystem == old(self).filesystem,
    {
        let ghost w = self.display_sprite.width as int;
        let ghost d0 = self.display_sprite.data@;
        clear_with_title(self, font, "USB Mass Storage");
        let width = self.display_sprite.width;
        let saving = "Saving...";
        let ghost d1 = self.display_sprite.data@;
        proof {
            lemma_text_ok_any_pixels(font, w, centred_offset(font, width, saving@), 100, d0, d1, saving@);
            lemma_text_drawn_len(font, w, (centred_offset(font, width, saving@), 100, d1), saving@);
        }
        self.display_sprite.print_centred(font, 0, 100, width, saving);
    }
}

/// The cursor and pixels after the first `k` of `texts`, each printed at its position, are drawn.
pub open spec fn texts_printed<F: AsciiFont>(font: &F, width: int, state: (int, int, Seq<Colour>), texts: Seq<(i16, i16, Seq<char>)>, k: int) -> (int, int, Seq<Colour>)
    decreases k,
{
    if k <= 0 {
        state
    } else {
        let (x, y, t) = texts[k - 1];
        printed(font, width, texts_printed(font, width, state, texts, k - 1), x as int, y as int, t)
    }
}

/// What the information screen prints, and where: the software version, the version of the
/// expression engine, the hardware revision, and the author.
pub open spec fn about_texts(software_version: Seq<char>, rbop_version: Seq<char>, hardware_revision: Seq<char>) -> Seq<(i16, i16, Seq<char>)> {
    seq![
        (5i16, 40i16, "Software version:"@),
        (5i16, 60i16, seq![' ', ' '] + software_version),
        (5i16, 100i16, "  rbop "@ + rbop_version),
        (5i16, 140i16, "Hardware revision:"@),
        (5i16, 160i16, seq![' ', ' '] + hardware_revision),
        (70i16, 250i16, "Created by"@),
        (35i16, 270i16, "Aaron Christiansen"@),
        (110i16, 290i16, ":)"@),
    ]
}

/// The information screen.
pub struct AboutApplication {}

impl AboutApplication {
    /// How the launcher lists this application: as "About", shown.
    pub fn info() -> (r: ApplicationInfo)
        ensures
            r.name@ == "About"@,
            r.visible,
    {
        ApplicationInfo { name: "About".to_owned(), visible: true }
    }

    pub fn new() -> (a: Self) {
        AboutApplication {}
    }

    /// Draws the information screen: a black display, the title bar reading "About Delta Pico",
    /// the software's version, the version of the expression engine and the hardware revision
    /// (which the caller reads), and the author.
    pub fn draw<F: AsciiFont>(&self, os: &mut OperatingSystem, font: &F, software_version: &str, rbop_version: &str, hardware_revision: &str)
        requires
            old(os).display_sprite.wf(),
            title_ok(
                font,
                old(os).display_sprite.width as int,
                old(os).display_sprite.height as int,
                old(os).display_sprite.data@,
                "About Delta Pico"@,
                old(os).text_mode,
                old(os).input_shift,
            ),
            forall|i: int| 0 <= i < 8 ==> #[trigger] text_ok(
                font,
                old(os).display_sprite.width as int,
                (
                    about_texts(software_version@, rbop_version@, hardware_revision@)[i].0 as int,
                    about_texts(software_version@, rbop_version@, hardware_revision@)[i].1 as int,
                    old(os).display_sprite.data@,
                ),
                about_texts(software_version@, rbop_version@, hardware_revision@)[i].2,
            ),
        ensures
            final(os).display_sprite.wf(),
            final(os).display_sprite.width == old(os).display_sprite.width,
            final(os).display_sprite.height == old(os).display_sprite.height,
            final(os).display_sprite.text_state() == texts_printed(
                font,
                old(os).display_sprite.width as int,
                titled_blank(
                    font,
                    old(os).display_sprite.width as int,
                    old(os).display_sprite.height as int,
                    old(os).display_sprite.text_state(),
                    "About Delta Pico"@,
                    old(os).text_mode,
                    old(os).input_shift,
                ),
                about_texts(software_version@, rbop_version@, hardware_revision@),
                8,
            ),
            final(os).filesystem == old(os).filesystem,
    {
        let ghost w = os.display_sprite.width as int;
        let ghost h = os.display_sprite.height as int;
        let ghost d0 = os.display_sprite.data@;
        let ghost expected = about_texts(software_version@, rbop_version@, hardware_revision@);
        clear_with_title(os, font, "About Delta Pico");
        let ghost titled = os.display_sprite.text_state();
        let mut software = String::new();
        software.append("  ");
        software.append(software_version);
        let mut engine = String::new();
        engine.append("  rbop ");
        engine.append(rbop_version);
        let mut hardware = String::new();
        hardware.append("  ");
        hardware.append(hardware_revision);
        let texts: Vec<(i16, i16, String)> = vec![
            (5, 40, "Software version:".to_owned()),
            (5, 60, software),
            (5, 100, engine),
            (5, 140, "Hardware revision:".to_owned()),
            (5, 160, hardware),
            (70, 250, "Created by".to_owned()),
            (35, 270, "Aaron Christiansen".to_owned()),
            (110, 290, ":)".to_owned()),
        ];
        proof {
            reveal_strlit("  ");
        }
        assert forall|i: int| 0 <= i < 8 implies #[trigger] texts@[i].2@ == expected[i].2 && texts@[i].0 == expected[i].0 && texts@[i].1 == expected[i].1 by {}
        let mut i: usize = 0;
        while i < texts.len()
            invariant
                texts@.len() == 8,
                i <= 8,
                forall|j: int| 0 <= j < 8 ==> #[trigger] texts@[j].2@ == expected[j].2 && texts@[j].0 == expected[j].0 && texts@[j].1 == expected[j].1,
                forall|j: int| 0 <= j < 8 ==> #[trigger] text_ok(font, w, (expected[j].0 as int, expected[j].1 as int, d0), expected[j].2),
                os.display_sprite.wf(),
                d0.len() == w * h,
                w == os.display_sprite.width,
                h == os.display_sprite.height,
                os.display_sprite.text_state() == texts_printed(font, w, titled, expected, i as int),
                os.filesystem == old(os).filesystem,
            decreases 8 - i,
        {
            let (x, y) = (texts[i].0, texts[i].1);
            assert(texts@[i as int].2@ == expected[i as int].2);
            assert(text_ok(font, w, (expected[i as int].0 as int, expected[i as int].1 as int, d0), expected[i as int].2));
            proof {
                lemma_text_ok_any_pixels(font, w, x as int, y as int, d0, os.display_sprite.data@, expected[i as int].2);
                lemma_text_drawn_len(font, w, (x as int, y as int, os.display_sprite.data@), expected[i as int].2);
            }
            os.display_sprite.print_at(font, x, y, texts[i].2.as_str());
            i = i + 1;
        }
    }
}

} // verus!
