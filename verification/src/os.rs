use vstd::prelude::*;
use crate::display::{Colour, ShapeFill};
use crate::font::AsciiFont;
use crate::graphics::{blit, blit_pixel_ok, clip_ok, rect_painted, saturate_i16, saturating_as_i16, Sprite};
use crate::text::{lemma_text_drawn_len, lemma_text_ok_any_pixels, text_drawn, text_ok};
use crate::input::{ButtonEvent, ButtonInput, OSInput};
use crate::multi_tap::{pressed_digit, MultiTapState};
use crate::raw_storage::RawStorage;
use crate::settings::{Settings, SettingsValues, MINIMUM_STORAGE_SIZE};
use crate::storage::StorageInterface;
use crate::wrap::push_char;
use crate::decimal::{decimal, push_decimal};
use crate::catalog::lines_printed;
use crate::wrap::{in_i16_range, lines_view, words, wrap_ok, wrap_words};

verus! {

/// What the launcher knows of an application.
pub struct ApplicationInfo {
    pub name: String,
    pub visible: bool,
}

/// What `str::to_lowercase` gives for a text: its Unicode lower-case form. That is not a map
/// of single characters (a final sigma depends on what surrounds it, and some characters become
/// several), so only that it depends on the text alone is used.
pub uninterp spec fn lowercase_of(s: Seq<char>) -> Seq<char>;

/// Calls `str::to_lowercase`. Its result depends on the text alone and is named
/// `lowercase_of`; the Unicode case tables it follows are not restated here.
#[verifier::external_body]
fn to_lowercase(s: &str) -> (r: String)
    ensures
        r@ == lowercase_of(s@),
{
    s.to_lowercase()
}

/// The name of an application's icon, from the lower-case form of its name: spaces become
/// underscores, a leading digit gets an underscore before it, and "_icon" is appended, so that
/// the name is a C identifier.
pub open spec fn icon_name_of(lower: Seq<char>) -> Seq<char> {
    let replaced = lower.map_values(|c: char| if c == ' ' { '_' } else { c });
    let prefixed = if '0' <= replaced[0] <= '9' { seq!['_'] + replaced } else { replaced };
    prefixed + seq!['_', 'i', 'c', 'o', 'n']
}

/// The icon name for a lower-case application name, which must not be empty.
pub fn icon_name_from_lowercase(lower: &String) -> (r: String)
    requires
        lower@.len() > 0,
    ensures
        r@ == icon_name_of(lower@),
{
    let s = lower.as_str();
    let n = s.unicode_len();
    let ghost replaced = lower@.map_values(|c: char| if c == ' ' { '_' } else { c });
    let mut out = String::new();
    let first = s.get_char(0);
    let first_replaced = if first == ' ' { '_' } else { first };
    if '0' <= first_replaced && first_replaced <= '9' {
        push_char(&mut out, '_');
    }
    let ghost start = out@;
    let mut i: usize = 0;
    while i < n
        invariant
            n == s@.len(),
            s@ == lower@,
            i <= n,
            replaced == lower@.map_values(|c: char| if c == ' ' { '_' } else { c }),
            out@ == start + replaced.subrange(0, i as int),
        decreases n - i,
    {
        let c = s.get_char(i);
        push_char(&mut out, if c == ' ' { '_' } else { c });
        proof {
            assert(replaced.subrange(0, i + 1) =~= replaced.subrange(0, i as int).push(replaced[i as int]));
        }
        i = i + 1;
    }
    assert(replaced.subrange(0, i as int) =~= replaced);
    push_char(&mut out, '_');
    push_char(&mut out, 'i');
    push_char(&mut out, 'c');
    push_char(&mut out, 'o');
    push_char(&mut out, 'n');
    proof {
        let prefixed = if '0' <= replaced[0] <= '9' { seq!['_'] + replaced } else { replaced };
        assert(start + replaced =~= prefixed);
        assert(out@ =~= prefixed + seq!['_', 'i', 'c', 'o', 'n']);
    }
    out
}

impl ApplicationInfo {
    /// The name of the application's icon (see `icon_name_of`), or `None` if its lower-case name
    /// is empty.
    pub fn icon_name(&self) -> (r: Option<String>)
        ensures
            lowercase_of(self.name@).len() == 0 ==> r is None,
            lowercase_of(self.name@).len() > 0 ==> (r matches Some(s) && s@ == icon_name_of(lowercase_of(self.name@))),
    {
        let lower = to_lowercase(self.name.as_str());
        if lower.as_str().unicode_len() == 0 {
            None
        } else {
            Some(icon_name_from_lowercase(&lower))
        }
    }
}

/// The applications that can be launched, in the order they were registered.
pub struct ApplicationList {
    pub applications: Vec<ApplicationInfo>,
}

impl ApplicationList {
    /// A list with no applications.
    pub fn new() -> (l: Self)
        ensures
            l.applications@.len() == 0,
    {
        ApplicationList { applications: Vec::new() }
    }

    /// Registers an application at the end of the list.
    pub fn add(&mut self, info: ApplicationInfo)
        ensures
            final(self).applications@ == old(self).applications@.push(info),
    {
        self.applications.push(info);
    }
}

impl Default for ApplicationList {
    fn default() -> (l: Self)
        ensures
            l.applications@.len() == 0,
    {
        Self::new()
    }
}

/// The data kept on the storage device.
pub struct Filesystem {
    pub settings: Settings,
}

/// Which application the operating system should run next.
#[derive(PartialEq, Eq, Copy, Clone, Debug, Structural)]
pub enum ApplicationToTick {
    /// The launcher menu.
    Menu,
    /// The running application, by its index in the application list.
    Active(usize),
}

/// The state of the operating system that its decisions depend on: which application runs,
/// the modes of the keyboard, queued test input and the display buffer.
pub struct OperatingSystem {
    pub application_list: ApplicationList,
    pub showing_menu: bool,
    pub active_application_index: Option<usize>,
    pub filesystem: Filesystem,
    pub input_shift: bool,
    pub text_mode: bool,
    pub multi_tap: MultiTapState,
    pub virtual_input_queue: Vec<Option<OSInput>>,
    pub display_sprite: Sprite,
    pub last_input_millis: u64,
}

/// The height of the title bar, in pixels.
pub const TITLE_BAR_HEIGHT: u16 = 30;

/// `queue` with each input of `inputs` appended, each followed by a `None`.
pub open spec fn queued_presses(queue: Seq<Option<OSInput>>, inputs: Seq<OSInput>) -> Seq<Option<OSInput>>
    decreases inputs.len(),
{
    if inputs.len() == 0 {
        queue
    } else {
        queued_presses(queue, inputs.drop_last()).push(Some(inputs.last())).push(None)
    }
}

impl OperatingSystem {
    /// The state at power-on, for a display of the given size: the launcher menu is shown, no
    /// application runs, the keyboard is in its plain mode, and the settings have their defaults.
    pub fn new(display_width: u16, display_height: u16) -> (os: Self)
        requires
            display_width * display_height <= usize::MAX,
        ensures
            os.application_list.applications@.len() == 0,
            os.showing_menu,
            os.active_application_index is None,
            os.filesystem.settings.storage == (RawStorage { start_address: 0, length: MINIMUM_STORAGE_SIZE }),
            os.filesystem.settings.values == SettingsValues::spec_default(),
            !os.input_shift,
            !os.text_mode,
            os.multi_tap.digit() is None,
            os.virtual_input_queue@.len() == 0,
            os.display_sprite.width == display_width,
            os.display_sprite.height == display_height,
            os.display_sprite.wf(),
            os.last_input_millis == 0,
    {
        OperatingSystem {
            application_list: ApplicationList::new(),
            showing_menu: true,
            active_application_index: None,
            filesystem: Filesystem {
                settings: Settings::new(RawStorage { start_address: 0, length: MINIMUM_STORAGE_SIZE }),
            },
            input_shift: false,
            text_mode: false,
            multi_tap: MultiTapState::new(),
            virtual_input_queue: Vec::new(),
            display_sprite: Sprite::new(display_width, display_height),
            last_input_millis: 0,
        }
    }

    /// The second step of starting up, once storage can be reached: the settings are loaded from
    /// `dev`, keeping the defaults where storage cannot be read.
    pub fn second_init<S: StorageInterface>(&mut self, dev: &mut S)
        requires
            old(self).filesystem.settings.wf(),
        ensures
            final(dev).contents() == old(dev).contents(),
            final(self).filesystem.settings.storage == old(self).filesystem.settings.storage,
            final(self).filesystem.settings.values == old(self).filesystem.settings.values
                || (old(self).filesystem.settings.readable(old(dev).contents().len() as int)
                && final(self).filesystem.settings.values == old(self).filesystem.settings.stored_values(old(dev).contents())),
            old(dev).never_fails() && old(self).filesystem.settings.readable(old(dev).contents().len() as int)
                ==> final(self).filesystem.settings.values == old(self).filesystem.settings.stored_values(old(dev).contents()),
            final(self).display_sprite == old(self).display_sprite,
            final(self).application_list == old(self).application_list,
            final(self).showing_menu == old(self).showing_menu,
            final(self).active_application_index == old(self).active_application_index,
    {
        self.filesystem.settings.load_into_self(dev);
    }

    /// Records that the application at `index` is now running instead of the menu. The caller
    /// starts a new instance of it.
    pub fn launch_application(&mut self, index: usize)
        requires
            index < old(self).application_list.applications@.len(),
        ensures
            !final(self).showing_menu,
            final(self).active_application_index == Some(index),
            final(self).application_list == old(self).application_list,
            final(self).input_shift == old(self).input_shift,
            final(self).text_mode == old(self).text_mode,
    {
        self.showing_menu = false;
        self.active_application_index = Some(index);
    }

    /// Launches the first application named `name`, which must be registered, and gives its
    /// index.
    pub fn launch_application_by_name(&mut self, name: &String) -> (index: usize)
        requires
            exists|i: int| 0 <= i < old(self).application_list.applications@.len()
                && #[trigger] old(self).application_list.applications@[i].name@ == name@,
        ensures
            index < old(self).application_list.applications@.len(),
            old(self).application_list.applications@[index as int].name@ == name@,
            forall|i: int| 0 <= i < index ==> #[trigger] old(self).application_list.applications@[i].name@ != name@,
            !final(self).showing_menu,
            final(self).active_application_index == Some(index),
            final(self).application_list == old(self).application_list,
    {
        let n = self.application_list.applications.len();
        let mut i: usize = 0;
        while i < n
            invariant
                n == self.application_list.applications@.len(),
                i <= n,
                self.application_list == old(self).application_list,
                self.showing_menu == old(self).showing_menu,
                self.active_application_index == old(self).active_application_index,
                forall|j: int| 0 <= j < i ==> #[trigger] self.application_list.applications@[j].name@ != name@,
                exists|j: int| 0 <= j < n && #[trigger] self.application_list.applications@[j].name@ == name@,
            decreases n - i,
        {
            if self.application_list.applications[i].name == *name {
                self.launch_application(i);
                return i;
            }
            i = i + 1;
        }
        proof {
            let j = choose|j: int| 0 <= j < n && #[trigger] self.application_list.applications@[j].name@ == name@;
            assert(self.application_list.applications@[j].name@ != name@);
        }
        vstd::pervasive::unreached()
    }

    /// Records that the running application starts again from scratch, and gives its index. An
    /// application must be running.
    pub fn restart_application(&mut self) -> (index: usize)
        requires
            old(self).active_application_index matches Some(i) && i < old(self).application_list.applications@.len(),
        ensures
            Some(index) == old(self).active_application_index,
            !final(self).showing_menu,
            final(self).active_application_index == old(self).active_application_index,
            final(self).application_list == old(self).application_list,
    {
        let index = self.active_application_index.unwrap();
        self.launch_application(index);
        index
    }

    /// The application to run next: the menu while it is shown or when no application runs,
    /// and the running application otherwise.
    pub fn application_to_tick(&self) -> (r: ApplicationToTick)
        ensures
            r == if self.showing_menu {
                ApplicationToTick::Menu
            } else {
                match self.active_application_index {
                    Some(i) => ApplicationToTick::Active(i),
                    None => ApplicationToTick::Menu,
                }
            },
    {
        if self.showing_menu {
            ApplicationToTick::Menu
        } else {
            match self.active_application_index {
                Some(i) => ApplicationToTick::Active(i),
                None => ApplicationToTick::Menu,
            }
        }
    }

    /// Shows the menu if it is hidden, and hides it if it is shown.
    pub fn toggle_menu(&mut self)
        ensures
            *final(self) == (OperatingSystem { showing_menu: !old(self).showing_menu, ..*old(self) }),
    {
        self.showing_menu = !self.showing_menu;
    }

    /// Takes queued test inputs until one is EXE, as a text dialog does to be dismissed. Gives
    /// whether an EXE was found; the queue then holds what came after the first one. If none was
    /// queued, the queue is emptied and the caller waits for EXE from the keys.
    pub fn wait_for_exe_in_queue(&mut self) -> (dismissed: bool)
        ensures
            dismissed == exists|k: int| 0 <= k < old(self).virtual_input_queue@.len()
                && old(self).virtual_input_queue@[k] == Some(OSInput::Button(ButtonInput::Exe)),
            dismissed ==> exists|k: int| {
                &&& 0 <= k < old(self).virtual_input_queue@.len()
                &&& old(self).virtual_input_queue@[k] == Some(OSInput::Button(ButtonInput::Exe))
                &&& forall|j: int| 0 <= j < k ==> old(self).virtual_input_queue@[j] != Some(OSInput::Button(ButtonInput::Exe))
                &&& final(self).virtual_input_queue@ == old(self).virtual_input_queue@.subrange(k + 1, old(self).virtual_input_queue@.len() as int)
            },
            !dismissed ==> final(self).virtual_input_queue@.len() == 0,
            *final(self) == (OperatingSystem { virtual_input_queue: final(self).virtual_input_queue, ..*old(self) }),
    {
        let ghost q = self.virtual_input_queue@;
        let ghost mut taken: int = 0;
        loop
            invariant
                0 <= taken <= q.len(),
                self.virtual_input_queue@ == q.subrange(taken, q.len() as int),
                forall|j: int| 0 <= j < taken ==> q[j] != Some(OSInput::Button(ButtonInput::Exe)),
                *self == (OperatingSystem { virtual_input_queue: self.virtual_input_queue, ..*old(self) }),
                q == old(self).virtual_input_queue@,
            decreases q.len() - taken,
        {
            match self.next_virtual_input() {
                None => {
                    assert(taken == q.len());
                    return false;
                },
                Some(input) => {
                    assert(input == q[taken]);
                    proof {
                        taken = taken + 1;
                    }
                    assert(self.virtual_input_queue@ =~= q.subrange(taken, q.len() as int));
                    if input == Some(OSInput::Button(ButtonInput::Exe)) {
                        return true;
                    }
                },
            }
        }
    }

    /// What a key event read from the keypad gives applications, `event` being `None` when no
    /// event was read: a press of MENU toggles the menu and a press of TEXT toggles text mode,
    /// both giving nothing; other presses give their key; releases give nothing.
    pub fn press_func_wrapper(&mut self, event: Option<ButtonEvent>) -> (r: Option<ButtonInput>)
        ensures
            event == Some(ButtonEvent::Press(ButtonInput::Menu)) ==> r is None
                && final(self).showing_menu == !old(self).showing_menu && final(self).text_mode == old(self).text_mode,
            event == Some(ButtonEvent::Press(ButtonInput::Text)) ==> r is None
                && final(self).text_mode == !old(self).text_mode && final(self).showing_menu == old(self).showing_menu,
            event matches Some(ButtonEvent::Press(k)) ==> (k != ButtonInput::Menu && k != ButtonInput::Text ==> r == Some(k)
                && final(self).text_mode == old(self).text_mode && final(self).showing_menu == old(self).showing_menu),
            !(event matches Some(ButtonEvent::Press(_))) ==> r is None
                && final(self).text_mode == old(self).text_mode && final(self).showing_menu == old(self).showing_menu,
            final(self).input_shift == old(self).input_shift,
            final(self).active_application_index == old(self).active_application_index,
            final(self).display_sprite == old(self).display_sprite,
    {
        match event {
            Some(ButtonEvent::Press(input)) => {
                if input == ButtonInput::Menu {
                    self.toggle_menu();
                    None
                } else if input == ButtonInput::Text {
                    self.text_mode = !self.text_mode;
                    None
                } else {
                    Some(input)
                }
            },
            _ => None,
        }
    }

    /// Translates a key press at time `now_ms` into what applications see, recording `now_ms` as
    /// the time of the last input. MENU toggles the menu
    /// and is passed on; TEXT and SHIFT toggle their modes and give nothing; other keys are passed
    /// on, shifted if SHIFT was pressed before them, which ends the shift. In text mode, digit
    /// keys are turned into letters by multi-tap, and any other key ends the letter being
    /// cycled.
    pub fn button_input_to_os_input(&mut self, input: ButtonInput, now_ms: u64) -> (r: Option<OSInput>)
        requires
            input matches ButtonInput::Digit(d) ==> d <= 9 && now_ms >= old(self).multi_tap.last_press(),
        ensures
            final(self).last_input_millis == now_ms,
            input == ButtonInput::Menu ==> r == Some(OSInput::Button(ButtonInput::Menu))
                && final(self).showing_menu == !old(self).showing_menu
                && final(self).input_shift == old(self).input_shift
                && final(self).text_mode == old(self).text_mode,
            input == ButtonInput::Text ==> r is None && final(self).text_mode == !old(self).text_mode
                && final(self).input_shift == old(self).input_shift
                && final(self).showing_menu == old(self).showing_menu,
            input == ButtonInput::Shift ==> r is None && final(self).input_shift == !old(self).input_shift
                && final(self).text_mode == old(self).text_mode
                && final(self).showing_menu == old(self).showing_menu,
            input == ButtonInput::NoKey ==> r is None && final(self).input_shift == old(self).input_shift
                && final(self).text_mode == old(self).text_mode
                && final(self).showing_menu == old(self).showing_menu,
            input != ButtonInput::Menu && input != ButtonInput::Text && input != ButtonInput::Shift
                && input != ButtonInput::NoKey ==> ({
                let passed = if old(self).input_shift {
                    OSInput::ShiftedButton(input)
                } else {
                    OSInput::Button(input)
                };
                &&& !final(self).input_shift
                &&& final(self).text_mode == old(self).text_mode
                &&& final(self).showing_menu == old(self).showing_menu
                &&& !old(self).text_mode ==> r == Some(passed)
                &&& old(self).text_mode && pressed_digit(passed) is Some ==> old(self).multi_tap.tapped(
                    &final(self).multi_tap,
                    passed,
                    now_ms,
                    r,
                )
                &&& old(self).text_mode && pressed_digit(passed) is None ==> r == Some(passed)
                    && final(self).multi_tap.digit() is None
            }),
    {
        self.last_input_millis = now_ms;
        let result = match input {
            ButtonInput::Menu => {
                self.toggle_menu();
                return Some(OSInput::Button(ButtonInput::Menu));
            },
            ButtonInput::Text => {
                self.text_mode = !self.text_mode;
                return None;
            },
            ButtonInput::Shift => {
                self.input_shift = !self.input_shift;
                return None;
            },
            ButtonInput::NoKey => {
                return None;
            },
            _ => {
                if self.input_shift {
                    OSInput::ShiftedButton(input)
                } else {
                    OSInput::Button(input)
                }
            },
        };
        self.input_shift = false;
        if self.text_mode {
            match input {
                ButtonInput::Digit(_) => {
                    return self.multi_tap.input(result, now_ms);
                },
                _ => {
                    self.multi_tap.drop_keypress();
                },
            }
        }
        Some(result)
    }

    /// Takes the next queued test input, if any: `Some` with the queued entry (itself `None` for
    /// a pause), or `None` if the queue is empty.
    pub fn next_virtual_input(&mut self) -> (r: Option<Option<OSInput>>)
        ensures
            old(self).virtual_input_queue@.len() == 0 ==> r is None && final(self).virtual_input_queue@
                == old(self).virtual_input_queue@,
            old(self).virtual_input_queue@.len() > 0 ==> r == Some(old(self).virtual_input_queue@[0])
                && final(self).virtual_input_queue@ == old(self).virtual_input_queue@.drop_first(),
            *final(self) == (OperatingSystem { virtual_input_queue: final(self).virtual_input_queue, ..*old(self) }),
    {
        if self.virtual_input_queue.len() == 0 {
            None
        } else {
            Some(self.virtual_input_queue.remove(0))
        }
    }

    /// Queues presses for the coming calls for input, each followed by a pause. Designed for
    /// tests.
    pub fn queue_virtual_presses(&mut self, buttons: &[OSInput])
        ensures
            final(self).virtual_input_queue@ == queued_presses(old(self).virtual_input_queue@, buttons@),
            *final(self) == (OperatingSystem { virtual_input_queue: final(self).virtual_input_queue, ..*old(self) }),
    {
        let mut i: usize = 0;
        while i < buttons.len()
            invariant
                i <= buttons@.len(),
                self.virtual_input_queue@ == queued_presses(old(self).virtual_input_queue@, buttons@.subrange(0, i as int)),
                *self == (OperatingSystem { virtual_input_queue: self.virtual_input_queue, ..*old(self) }),
            decreases buttons@.len() - i,
        {
            assert(buttons@.subrange(0, i + 1).drop_last() == buttons@.subrange(0, i as int));
            self.virtual_input_queue.push(Some(buttons[i]));
            self.virtual_input_queue.push(None);
            i = i + 1;
        }
        assert(buttons@.subrange(0, i as int) == buttons@);
    }
}

/// The cursor and pixels after a rectangle is painted on a sprite of `width` by `height`.
pub open spec fn painted(state: (int, int, Seq<Colour>), width: int, height: int, x: int, y: int, w: int, h: int, colour: Colour, filled: bool) -> (int, int, Seq<Colour>) {
    (state.0, state.1, rect_painted(state.2, width, height, x, y, w, h, colour, filled))
}

/// The cursor and pixels after text is printed at `(x, y)`.
pub open spec fn printed<F: AsciiFont>(font: &F, width: int, state: (int, int, Seq<Colour>), x: int, y: int, s: Seq<char>) -> (int, int, Seq<Colour>) {
    text_drawn(font, width, (x, y, state.2), s)
}

/// The title bar after the orange bar itself and the title are drawn.
pub open spec fn title_bar<F: AsciiFont>(font: &F, width: int, height: int, state: (int, int, Seq<Colour>), title: Seq<char>) -> (int, int, Seq<Colour>) {
    printed(font, width, painted(state, width, height, 0, 0, width, TITLE_BAR_HEIGHT as int, Colour(0xCC), true), 5, 7, title)
}

/// The display after the title bar is drawn: the bar and title, and in text mode a framed
/// "TEXT" (or "text" when unshifted).
pub open spec fn title_drawn<F: AsciiFont>(font: &F, w: int, h: int, state: (int, int, Seq<Colour>), title: Seq<char>, text_mode: bool, shift: bool) -> (int, int, Seq<Colour>) {
    let bar = title_bar(font, w, h, state, title);
    let boxed = painted(bar, w, h, 145, 4, 50, 24, Colour(0xFF), false);
    if !text_mode {
        bar
    } else if shift {
        printed(font, w, boxed, 149, 6, "TEXT"@)
    } else {
        printed(font, w, boxed, 153, 6, "text"@)
    }
}

/// Whether the title bar can be drawn on a `w` by `h` display without a fault.
pub open spec fn title_ok<F: AsciiFont>(font: &F, w: int, h: int, pixels: Seq<Colour>, title: Seq<char>, text_mode: bool, shift: bool) -> bool {
    &&& text_ok(font, w, (5, 7, pixels), title)
    &&& text_mode ==> {
        &&& 145 <= w
        &&& 4 <= h
        &&& shift ==> text_ok(font, w, (149, 6, pixels), "TEXT"@)
        &&& !shift ==> text_ok(font, w, (153, 6, pixels), "text"@)
    }
}

impl OperatingSystem {
    /// Draws the title bar: an orange bar across the top of the display with `title` in it, and,
    /// in text mode, a framed "TEXT" (or "text" when unshifted).
    pub fn ui_draw_title<F: AsciiFont>(&mut self, font: &F, title: &str)
        requires
            old(self).display_sprite.wf(),
            title_ok(
                font,
                old(self).display_sprite.width as int,
                old(self).display_sprite.height as int,
                old(self).display_sprite.data@,
                title@,
                old(self).text_mode,
                old(self).input_shift,
            ),
        ensures
            final(self).display_sprite.wf(),
            final(self).display_sprite.text_state() == title_drawn(
                font,
                old(self).display_sprite.width as int,
                old(self).display_sprite.height as int,
                old(self).display_sprite.text_state(),
                title@,
                old(self).text_mode,
                old(self).input_shift,
            ),
            final(self).filesystem == old(self).filesystem,
            final(self).display_sprite.width == old(self).display_sprite.width,
            final(self).display_sprite.height == old(self).display_sprite.height,
            final(self).text_mode == old(self).text_mode,
            final(self).input_shift == old(self).input_shift,
            final(self).showing_menu == old(self).showing_menu,
            final(self).active_application_index == old(self).active_application_index,
    {
        let width = self.display_sprite.width;
        let ghost h = self.display_sprite.height as int;
        let ghost d0 = self.display_sprite.data@;
        self.display_sprite.draw_rect(0, 0, width, TITLE_BAR_HEIGHT, Colour::orange(), ShapeFill::Filled, 0);
        proof {
            lemma_text_ok_any_pixels(font, width as int, 5, 7, d0, self.display_sprite.data@, title@);
        }
        let ghost d1 = self.display_sprite.data@;
        self.display_sprite.print_at(font, 5, 7, title);
        proof {
            lemma_text_drawn_len(font, width as int, (5, 7, d1), title@);
        }
        if self.text_mode {
            let ghost d2 = self.display_sprite.data@;
            self.display_sprite.draw_rect(145, 4, 50, 24, Colour::white(), ShapeFill::Hollow, 5);
            let ghost d3 = self.display_sprite.data@;
            if self.input_shift {
                proof {
                    lemma_text_ok_any_pixels(font, width as int, 149, 6, d0, d3, "TEXT"@);
                }
                self.display_sprite.print_at(font, 149, 6, "TEXT");
                proof {
                    lemma_text_drawn_len(font, width as int, (149, 6, d3), "TEXT"@);
                }
            } else {
                proof {
                    lemma_text_ok_any_pixels(font, width as int, 153, 6, d0, d3, "text"@);
                }
                self.display_sprite.print_at(font, 153, 6, "text");
                proof {
                    lemma_text_drawn_len(font, width as int, (153, 6, d3), "text"@);
                }
            }
        }
    }
}

/// The width of each debug panel at the top right of the display.
pub const DEBUG_PANEL_WIDTH: i16 = 80;

/// The text of the frame-time panel: the milliseconds since the last input.
pub open spec fn frame_time_text(elapsed: u64) -> Seq<char> {
    decimal(elapsed as nat) + seq!['m', 's']
}

/// The text of the heap panel: the bytes used and available, in whole kilobytes.
pub open spec fn heap_text(used: usize, total: usize) -> Seq<char> {
    decimal((used / 1000) as nat) + seq!['/'] + decimal((total / 1000) as nat) + seq!['k', 'B']
}

/// The cursor and pixels after the debug panels that `values` switch on are drawn on a display
/// `width` by `height`, in `font`: each a black box 80 pixels wide and half the title bar high at
/// the top right, the frame time above the heap usage.
pub open spec fn debug_panels_drawn<F: AsciiFont>(
    font: &F,
    width: int,
    height: int,
    state: (int, int, Seq<Colour>),
    show_frame_time: bool,
    show_heap_usage: bool,
    elapsed: u64,
    used: usize,
    total: usize,
) -> (int, int, Seq<Colour>) {
    let x = (width as i16) - DEBUG_PANEL_WIDTH;
    let half = (TITLE_BAR_HEIGHT / 2) as int;
    let timed = if show_frame_time {
        printed(font, width, painted(state, width, height, x, 0, 80, half, Colour(0), true), x, 0, frame_time_text(elapsed))
    } else {
        state
    };
    if show_heap_usage {
        printed(font, width, painted(timed, width, height, x, half, 80, half, Colour(0), true), x, half, heap_text(used, total))
    } else {
        timed
    }
}

impl OperatingSystem {
    /// Draws the debug panels that the settings switch on over the display sprite, ready for it
    /// to be shown: the time since the last input at `now_millis`, in `small_font`, and the heap
    /// `memory_usage` (bytes used, bytes available).
    pub fn draw<F: AsciiFont>(&mut self, small_font: &F, now_millis: u64, memory_usage: (usize, usize))
        requires
            old(self).display_sprite.wf(),
            old(self).filesystem.settings.values.show_frame_time ==> now_millis >= old(self).last_input_millis,
            old(self).filesystem.settings.values.show_frame_time || old(self).filesystem.settings.values.show_heap_usage ==> {
                &&& (old(self).display_sprite.width as i16) - DEBUG_PANEL_WIDTH >= i16::MIN
                &&& clip_ok((old(self).display_sprite.width as i16) - DEBUG_PANEL_WIDTH, 80, old(self).display_sprite.width as int)
            },
            old(self).filesystem.settings.values.show_frame_time ==> text_ok(
                small_font,
                old(self).display_sprite.width as int,
                ((old(self).display_sprite.width as i16) - DEBUG_PANEL_WIDTH, 0, old(self).display_sprite.data@),
                frame_time_text((now_millis - old(self).last_input_millis) as u64),
            ),
            old(self).filesystem.settings.values.show_heap_usage ==> clip_ok((TITLE_BAR_HEIGHT / 2) as int, (TITLE_BAR_HEIGHT / 2) as int, old(self).display_sprite.height as int),
            old(self).filesystem.settings.values.show_heap_usage ==> text_ok(
                small_font,
                old(self).display_sprite.width as int,
                ((old(self).display_sprite.width as i16) - DEBUG_PANEL_WIDTH, (TITLE_BAR_HEIGHT / 2) as int, old(self).display_sprite.data@),
                heap_text(memory_usage.0, memory_usage.1),
            ),
        ensures
            final(self).display_sprite.wf(),
            final(self).display_sprite.width == old(self).display_sprite.width,
            final(self).display_sprite.height == old(self).display_sprite.height,
            final(self).display_sprite.text_state() == debug_panels_drawn(
                small_font,
                old(self).display_sprite.width as int,
                old(self).display_sprite.height as int,
                old(self).display_sprite.text_state(),
                old(self).filesystem.settings.values.show_frame_time,
                old(self).filesystem.settings.values.show_heap_usage,
                (now_millis - old(self).last_input_millis) as u64,
                memory_usage.0,
                memory_usage.1,
            ),
            *final(self) == (OperatingSystem { display_sprite: final(self).display_sprite, ..*old(self) }),
    {
        let ghost w = self.display_sprite.width as int;
        let ghost d0 = self.display_sprite.data@;
        let half = TITLE_BAR_HEIGHT / 2;
        if self.filesystem.settings.values.show_frame_time {
            let x = (#[verifier::truncate] (self.display_sprite.width as i16)) - DEBUG_PANEL_WIDTH;
            let elapsed = now_millis - self.last_input_millis;
            self.display_sprite.draw_rect(x, 0, DEBUG_PANEL_WIDTH as u16, half, Colour::black(), ShapeFill::Filled, 0);
            let mut text = String::new();
            push_decimal(&mut text, elapsed);
            push_char(&mut text, 'm');
            push_char(&mut text, 's');
            assert(text@ =~= frame_time_text(elapsed));
            let ghost d1 = self.display_sprite.data@;
            proof {
                lemma_text_ok_any_pixels(small_font, w, x as int, 0, d0, d1, text@);
                lemma_text_drawn_len(small_font, w, (x as int, 0, d1), text@);
            }
            self.display_sprite.print_at(small_font, x, 0, text.as_str());
        }
        if self.filesystem.settings.values.show_heap_usage {
            let x = (#[verifier::truncate] (self.display_sprite.width as i16)) - DEBUG_PANEL_WIDTH;
            let (used, total) = memory_usage;
            self.display_sprite.draw_rect(x, half as i16, DEBUG_PANEL_WIDTH as u16, half, Colour::black(), ShapeFill::Filled, 0);
            let mut text = String::new();
            push_decimal(&mut text, (used / 1000) as u64);
            push_char(&mut text, '/');
            push_decimal(&mut text, (total / 1000) as u64);
            push_char(&mut text, 'k');
            push_char(&mut text, 'B');
            assert(text@ =~= heap_text(used, total));
            let ghost d2 = self.display_sprite.data@;
            proof {
                lemma_text_ok_any_pixels(small_font, w, x as int, half as int, d0, d2, text@);
                lemma_text_drawn_len(small_font, w, (x as int, half as int, d2), text@);
            }
            self.display_sprite.print_at(small_font, x, half as i16, text.as_str());
        }
    }
}

/// The width a text dialog wraps its text to on a display `width` pixels wide: 30 pixels of
/// margin and 10 of padding on each side.
pub open spec fn dialog_limit(width: int) -> int {
    ((width - 80) as u16) as i16 as int
}

/// The lines of a text dialog showing `s`.
pub open spec fn dialog_lines<F: AsciiFont>(font: &F, width: int, s: Seq<char>) -> Seq<Seq<char>> {
    wrap_words(font, dialog_limit(width), words(s)).2
}

/// The height of the text of a dialog showing `s`.
pub open spec fn dialog_text_height<F: AsciiFont>(font: &F, width: int, s: Seq<char>) -> int {
    (wrap_words(font, dialog_limit(width), words(s)).1 + font.glyph(65).unwrap().1) as u16 as int
}

/// The top of a text dialog showing `s`: its text is centred down the display.
pub open spec fn dialog_top<F: AsciiFont>(font: &F, width: int, height: int, s: Seq<char>) -> int {
    (height - dialog_text_height(font, width, s)) / 2
}

/// The cursor and pixels after a text dialog showing `s` is drawn on a display `width` by
/// `height`: a grey box with a white border, 30 pixels in from each side and 10 pixels taller
/// than the text at each end, and the wrapped lines of `s` in it.
pub open spec fn text_dialog_drawn<F: AsciiFont>(font: &F, width: int, height: int, state: (int, int, Seq<Colour>), s: Seq<char>) -> (int, int, Seq<Colour>) {
    let top = dialog_top(font, width, height, s);
    let box_height = dialog_text_height(font, width, s) + 20;
    let panel = painted(state, width, height, 30, top, width - 60, box_height, Colour(0x24), true);
    let framed = painted(panel, width, height, 30, top, width - 60, box_height, Colour(0xFF), false);
    let lines = dialog_lines(font, width, s);
    lines_printed(font, width, framed, lines, 40, top + 10, font.glyph(65).unwrap().1 as int, lines.len() as int)
}

/// Whether line `i` of a dialog's text can be drawn without a fault.
pub open spec fn dialog_line_ok<F: AsciiFont>(font: &F, width: int, pixels: Seq<Colour>, lines: Seq<Seq<char>>, y: int, i: int) -> bool {
    let line_height = font.glyph(65).unwrap().1;
    &&& i <= i16::MAX
    &&& in_i16_range(line_height * i)
    &&& in_i16_range(y + line_height * i)
    &&& text_ok(font, width, (40, y + line_height * i, pixels), lines[i])
}

impl OperatingSystem {
    /// Draws a text dialog in the middle of the display: a grey box with a white border holding
    /// `s` wrapped to fit. The caller then waits for EXE to dismiss it.
    pub fn ui_text_dialog<F: AsciiFont>(&mut self, font: &F, s: &str)
        requires
            old(self).display_sprite.wf(),
            old(self).display_sprite.width >= 80,
            font.glyph(65) is Some,
            wrap_ok(font, dialog_limit(old(self).display_sprite.width as int), words(s@)),
            in_i16_range(wrap_words(font, dialog_limit(old(self).display_sprite.width as int), words(s@)).1 + font.glyph(65).unwrap().1),
            dialog_text_height(font, old(self).display_sprite.width as int, s@) <= old(self).display_sprite.height,
            dialog_text_height(font, old(self).display_sprite.width as int, s@) + 20 <= u16::MAX,
            clip_ok(
                dialog_top(font, old(self).display_sprite.width as int, old(self).display_sprite.height as int, s@),
                dialog_text_height(font, old(self).display_sprite.width as int, s@) + 20,
                old(self).display_sprite.height as int,
            ),
            dialog_top(font, old(self).display_sprite.width as int, old(self).display_sprite.height as int, s@) + 10 <= i16::MAX,
            forall|i: int| 0 <= i < dialog_lines(font, old(self).display_sprite.width as int, s@).len() ==> #[trigger] dialog_line_ok(
                font,
                old(self).display_sprite.width as int,
                old(self).display_sprite.data@,
                dialog_lines(font, old(self).display_sprite.width as int, s@),
                dialog_top(font, old(self).display_sprite.width as int, old(self).display_sprite.height as int, s@) + 10,
                i,
            ),
        ensures
            final(self).display_sprite.wf(),
            final(self).display_sprite.width == old(self).display_sprite.width,
            final(self).display_sprite.height == old(self).display_sprite.height,
            final(self).display_sprite.text_state() == text_dialog_drawn(
                font,
                old(self).display_sprite.width as int,
                old(self).display_sprite.height as int,
                old(self).display_sprite.text_state(),
                s@,
            ),
            final(self).filesystem == old(self).filesystem,
            final(self).text_mode == old(self).text_mode,
            final(self).input_shift == old(self).input_shift,
            final(self).showing_menu == old(self).showing_menu,
            final(self).active_application_index == old(self).active_application_index,
    {
        let ghost wd = self.display_sprite.width as int;
        let ghost ht = self.display_sprite.height as int;
        let ghost d0 = self.display_sprite.data@;
        let w = self.display_sprite.width - 30 * 2;
        let (lines, ch, total) = self.display_sprite.wrap_text(font, s, w - 10 * 2);
        let h = #[verifier::truncate] (total as u16);
        let y_start = (self.display_sprite.height - h) / 2;
        self.display_sprite.draw_rect(30, y_start as i16, w, h + 10 * 2, Colour::grey(), ShapeFill::Filled, 10);
        self.display_sprite.draw_rect(30, y_start as i16, w, h + 10 * 2, Colour::white(), ShapeFill::Hollow, 10);
        let ghost framed = self.display_sprite.text_state();
        let ghost texts = dialog_lines(font, wd, s@);
        let top = y_start as i16 + 10;
        let mut i: usize = 0;
        while i < lines.len()
            invariant
                i <= lines@.len(),
                lines_view(lines@) == texts,
                ch as int == font.glyph(65).unwrap().1,
                font.glyph(65) is Some,
                top as int == dialog_top(font, wd, ht, s@) + 10,
                self.display_sprite.wf(),
                wd == self.display_sprite.width,
                ht == self.display_sprite.height,
                d0.len() == wd * ht,
                forall|j: int| 0 <= j < texts.len() ==> #[trigger] dialog_line_ok(font, wd, d0, texts, top as int, j),
                self.display_sprite.text_state() == lines_printed(font, wd, framed, texts, 40, top as int, ch as int, i as int),
                self.filesystem == old(self).filesystem,
                self.text_mode == old(self).text_mode,
                self.input_shift == old(self).input_shift,
                self.showing_menu == old(self).showing_menu,
                self.active_application_index == old(self).active_application_index,
            decreases lines@.len() - i,
        {
            assert(dialog_line_ok(font, wd, d0, texts, top as int, i as int));
            assert(lines@[i as int]@ == texts[i as int]);
            let line_y = top + ch * (i as i16);
            proof {
                lemma_text_ok_any_pixels(font, wd, 40, line_y as int, d0, self.display_sprite.data@, texts[i as int]);
                lemma_text_drawn_len(font, wd, (40, line_y as int, self.display_sprite.data@), texts[i as int]);
            }
            self.display_sprite.print_at(font, 40, line_y, lines[i].as_str());
            i = i + 1;
        }
    }
}


/// The width of the dialog in which an expression is typed.
pub const EXPRESSION_DIALOG_WIDTH: u16 = 240;

/// The top of the dialog in which an expression is typed, on a display `height` pixels high, when
/// the expression has been up to `minimum_height` pixels high: room for the expression, a title
/// line of 30 pixels and padding of 10 above and below, up from the bottom of the display.
pub open spec fn expression_dialog_y(height: int, minimum_height: int) -> int {
    height - minimum_height - 30 - 20
}

/// The cursor and pixels after the dialog in which an expression is typed is drawn on a display
/// `width` by `height`: a grey panel with a white border from `expression_dialog_y` (saturated to
/// `i16`) down past the display, `title` in it 10 pixels in and down, and the expression drawn on
/// `expression` 10 pixels in, below the title line.
pub open spec fn expression_dialog_drawn<F: AsciiFont>(font: &F, width: int, height: int, state: (int, int, Seq<Colour>), title: Seq<char>, expression: Sprite, minimum_height: int) -> (int, int, Seq<Colour>) {
    let y = expression_dialog_y(height, minimum_height);
    let top = saturate_i16(y as u16);
    let panel = painted(state, width, height, 0, top, EXPRESSION_DIALOG_WIDTH as int, 400, Colour(0x24), true);
    let framed = painted(panel, width, height, 0, top, EXPRESSION_DIALOG_WIDTH as int, 400, Colour(0xFF), false);
    let titled = printed(font, width, framed, 10, top + 10, title);
    (titled.0, titled.1, blit(titled.2, width, 10, (y as u16 as i16) + 40, expression, expression.width as int))
}

/// Whether that dialog can be drawn on a display `width` by `height` holding `pixels` without a
/// fault.
pub open spec fn expression_dialog_ok<F: AsciiFont>(font: &F, width: int, height: int, pixels: Seq<Colour>, title: Seq<char>, expression: Sprite, minimum_height: int) -> bool {
    let y = expression_dialog_y(height, minimum_height);
    let top = saturate_i16(y as u16);
    let expression_y = (y as u16 as i16) + 40;
    &&& y >= 0
    &&& clip_ok(0, EXPRESSION_DIALOG_WIDTH as int, width)
    &&& clip_ok(top, 400, height)
    &&& top + 10 <= i16::MAX
    &&& text_ok(font, width, (10, top + 10, pixels), title)
    &&& expression_y <= i16::MAX
    &&& expression.wf()
    &&& expression.width > 0 ==> 10 + saturate_i16((expression.width - 1) as u16) <= i16::MAX
    &&& expression.height > 0 ==> expression_y + saturate_i16((expression.height - 1) as u16) <= i16::MAX
    &&& forall|ox: int, oy: int| 0 <= ox < expression.width && 0 <= oy < expression.height ==> #[trigger] blit_pixel_ok(pixels.len() as int, width, 10, expression_y, ox, oy)
}

/// The greater of two heights.
pub open spec fn taller(a: int, b: int) -> int {
    if a > b { a } else { b }
}

impl OperatingSystem {
    /// Draws the dialog in which an expression is typed, with `title` and the expression drawn on
    /// `expression`. The dialog never gets shorter than the tallest the expression has been,
    /// `minimum_height`, so that no stale box is left above it; returns the new such height. The
    /// caller shows the display, reads a key and gives it to the expression.
    pub fn ui_draw_expression_dialog<F: AsciiFont>(&mut self, font: &F, title: &str, expression: &Sprite, minimum_height: u16) -> (r: u16)
        requires
            old(self).display_sprite.wf(),
            expression_dialog_ok(
                font,
                old(self).display_sprite.width as int,
                old(self).display_sprite.height as int,
                old(self).display_sprite.data@,
                title@,
                *expression,
                taller(minimum_height as int, expression.height as int),
            ),
        ensures
            r == taller(minimum_height as int, expression.height as int),
            final(self).display_sprite.wf(),
            final(self).display_sprite.width == old(self).display_sprite.width,
            final(self).display_sprite.height == old(self).display_sprite.height,
            final(self).display_sprite.text_state() == expression_dialog_drawn(
                font,
                old(self).display_sprite.width as int,
                old(self).display_sprite.height as int,
                old(self).display_sprite.text_state(),
                title@,
                *expression,
                r as int,
            ),
            final(self).filesystem == old(self).filesystem,
            final(self).text_mode == old(self).text_mode,
            final(self).input_shift == old(self).input_shift,
            final(self).showing_menu == old(self).showing_menu,
            final(self).active_application_index == old(self).active_application_index,
    {
        let ghost w = self.display_sprite.width as int;
        let ghost d0 = self.display_sprite.data@;
        let height = if expression.height > minimum_height { expression.height } else { minimum_height };
        let y = self.display_sprite.height - height - 30 - 10 * 2;
        let top = saturating_as_i16(y);
        self.display_sprite.draw_rect(0, top, EXPRESSION_DIALOG_WIDTH, 400, Colour::grey(), ShapeFill::Filled, 10);
        self.display_sprite.draw_rect(0, top, EXPRESSION_DIALOG_WIDTH, 400, Colour::white(), ShapeFill::Hollow, 10);
        let ghost d1 = self.display_sprite.data@;
        proof {
            lemma_text_ok_any_pixels(font, w, 10, top + 10, d0, d1, title@);
            lemma_text_drawn_len(font, w, (10, top + 10, d1), title@);
        }
        self.display_sprite.print_at(font, 10, top + 10, title);
        let expression_y = #[verifier::truncate] (y as i16) + 30 + 10;
        self.display_sprite.draw_sprite(10, expression_y, expression);
        height
    }
}

} // verus!
