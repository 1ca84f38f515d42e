use vstd::prelude::*;
use crate::input::{ButtonInput, OSInput};
use crate::bitmap::Bitmaps;
use crate::font::AsciiFont;
use crate::menu::{draw_menu_screen, menu_ok, menu_screen, next_index, previous_index, UIFullPageMenu, UIFullPageMenuItem};
use crate::os::{printed, title_ok, OperatingSystem};
use crate::apps::{clear_with_title, titled_blank};
use crate::text::{centred_offset, lemma_text_drawn_len, lemma_text_ok_any_pixels, measurable, text_ok, text_width};
use crate::os::ApplicationInfo;
use crate::settings::{encode_bool, Settings, SettingsValues};
use crate::storage::StorageInterface;
use crate::timer::{timer_depth, timer_text, Timer};
use crate::decimal::{decimal, push_decimal};
use crate::wrap::push_char;

verus! {

/// The number of entries in the settings menu.
pub const SETTINGS_ENTRIES: usize = 3;

/// The title, icon name and toggle of entry `i` of the settings menu for `values`: whether the
/// frame time is shown, whether the heap usage is shown, and the graphics benchmark.
pub open spec fn settings_entry(values: SettingsValues, i: int) -> (Seq<char>, Seq<char>, Option<bool>) {
    if i == 0 {
        ("Show frame time"@, "settings_show_frame_time"@, Some(values.show_frame_time))
    } else if i == 1 {
        ("Show heap usage"@, "settings_show_memory_usage"@, Some(values.show_heap_usage))
    } else {
        ("Graphics benchmark"@, "settings_graphics_benchmark"@, None)
    }
}

/// Whether `items` are the entries of the settings menu for `values`.
pub open spec fn shows_settings(items: Seq<UIFullPageMenuItem>, values: SettingsValues) -> bool {
    &&& items.len() == SETTINGS_ENTRIES
    &&& forall|i: int| 0 <= i < SETTINGS_ENTRIES ==> {
        &&& #[trigger] items[i].title@ == settings_entry(values, i).0
        &&& items[i].icon@ == settings_entry(values, i).1
        &&& items[i].toggle == settings_entry(values, i).2
    }
}

/// The device's contents after `settings` are saved onto `c`.
pub open spec fn saved_contents(settings: Settings, c: Seq<u8>) -> Seq<u8> {
    c.update(settings.abs(1), encode_bool(settings.values.show_heap_usage))
        .update(settings.abs(2), encode_bool(settings.values.show_frame_time))
        .update(settings.abs(3), encode_bool(settings.values.fire_button_press_only))
}

/// The settings application: a menu of the settings that can be switched, and the graphics
/// benchmark.
pub struct SettingsApplication {
    pub menu: UIFullPageMenu,
}

impl SettingsApplication {
    /// How the launcher lists this application: as "Settings", hidden.
    pub fn info() -> (r: ApplicationInfo)
        ensures
            r.name@ == "Settings"@,
            !r.visible,
    {
        ApplicationInfo { name: "Settings".to_owned(), visible: false }
    }

    /// The settings menu for `values`, its first entry selected.
    pub fn new(values: &SettingsValues) -> (a: Self)
        ensures
            shows_settings(a.menu.items@, *values),
            a.menu.selected_index == 0,
            a.menu.page_scroll_offset == 0,
            a.menu.wf(),
    {
        let mut a = SettingsApplication { menu: UIFullPageMenu::new(Vec::new()) };
        a.build_menu(values);
        a
    }

    /// Sets the menu's entries to those for `values`, keeping the selection, which must be one
    /// of them.
    pub fn build_menu(&mut self, values: &SettingsValues)
        requires
            old(self).menu.selected_index < SETTINGS_ENTRIES,
            old(self).menu.page_scroll_offset == 0,
        ensures
            shows_settings(final(self).menu.items@, *values),
            final(self).menu.selected_index == old(self).menu.selected_index,
            final(self).menu.page_scroll_offset == 0,
            final(self).menu.wf(),
    {
        let items = vec![
            UIFullPageMenuItem {
                title: "Show frame time".to_owned(),
                icon: "settings_show_frame_time".to_owned(),
                toggle: Some(values.show_frame_time),
            },
            UIFullPageMenuItem {
                title: "Show heap usage".to_owned(),
                icon: "settings_show_memory_usage".to_owned(),
                toggle: Some(values.show_heap_usage),
            },
            UIFullPageMenuItem {
                title: "Graphics benchmark".to_owned(),
                icon: "settings_graphics_benchmark".to_owned(),
                toggle: None,
            },
        ];
        self.menu.items = items;
        assert(shows_settings(self.menu.items@, *values));
    }

    /// Handles a key: up and down move through the menu; returns whether it was EXE, on which the
    /// selected setting is to be changed.
    pub fn handle_input(&mut self, input: OSInput) -> (exe: bool)
        requires
            old(self).menu.items@.len() > 0,
            old(self).menu.wf(),
        ensures
            final(self).menu.wf(),
            final(self).menu.items@ == old(self).menu.items@,
            exe == (input == OSInput::Button(ButtonInput::Exe)),
            input == OSInput::Button(ButtonInput::MoveUp) ==> final(self).menu.selected_index == previous_index(
                old(self).menu.selected_index as int,
                old(self).menu.items@.len() as int,
            ),
            input == OSInput::Button(ButtonInput::MoveDown) ==> final(self).menu.selected_index == next_index(
                old(self).menu.selected_index as int,
                old(self).menu.items@.len() as int,
            ),
            input != OSInput::Button(ButtonInput::MoveUp) && input != OSInput::Button(ButtonInput::MoveDown)
                ==> final(self).menu == old(self).menu,
    {
        match input {
            OSInput::Button(ButtonInput::MoveUp) => {
                self.menu.move_up();
                false
            },
            OSInput::Button(ButtonInput::MoveDown) => {
                self.menu.move_down();
                false
            },
            OSInput::Button(ButtonInput::Exe) => true,
            _ => false,
        }
    }

    /// Changes the selected setting: a switch is flipped, shown in its entry, and the settings are
    /// saved to `dev`; on the benchmark entry nothing changes and `true` is returned, for the
    /// caller to run the benchmark.
    pub fn change_selected_setting<S: StorageInterface>(&mut self, settings: &mut Settings, dev: &mut S) -> (run_benchmark: bool)
        requires
            old(self).menu.wf(),
            shows_settings(old(self).menu.items@, old(settings).values),
            old(settings).wf(),
        ensures
            final(self).menu.wf(),
            final(self).menu.selected_index == old(self).menu.selected_index,
            final(self).menu.page_scroll_offset == old(self).menu.page_scroll_offset,
            shows_settings(final(self).menu.items@, final(settings).values),
            final(settings).storage == old(settings).storage,
            run_benchmark == (old(self).menu.selected_index == 2),
            final(settings).values == if old(self).menu.selected_index == 0 {
                SettingsValues { show_frame_time: !old(settings).values.show_frame_time, ..old(settings).values }
            } else if old(self).menu.selected_index == 1 {
                SettingsValues { show_heap_usage: !old(settings).values.show_heap_usage, ..old(settings).values }
            } else {
                old(settings).values
            },
            final(dev).contents().len() == old(dev).contents().len(),
            run_benchmark ==> final(dev).contents() == old(dev).contents(),
            !run_benchmark && old(dev).never_fails() && old(settings).readable(old(dev).contents().len() as int)
                ==> final(dev).contents() == saved_contents(*final(settings), old(dev).contents()),
    {
        let index = self.menu.selected_index;
        if index == 2 {
            return true;
        }
        let ghost old_items = self.menu.items@;
        let value = if index == 0 {
            settings.values.show_frame_time = !settings.values.show_frame_time;
            settings.values.show_frame_time
        } else {
            settings.values.show_heap_usage = !settings.values.show_heap_usage;
            settings.values.show_heap_usage
        };
        let item = UIFullPageMenuItem {
            title: self.menu.items[index].title.clone(),
            icon: self.menu.items[index].icon.clone(),
            toggle: Some(value),
        };
        self.menu.items.set(index, item);
        assert forall|i: int| 0 <= i < SETTINGS_ENTRIES implies {
            &&& #[trigger] self.menu.items@[i].title@ == settings_entry(settings.values, i).0
            &&& self.menu.items@[i].icon@ == settings_entry(settings.values, i).1
            &&& self.menu.items@[i].toggle == settings_entry(settings.values, i).2
        } by {
            assert(old_items[i].title@ == settings_entry(old(settings).values, i).0);
        }
        let _ = settings.save(dev);
        false
    }
    /// Draws the settings screen: a black display, the title bar reading "Settings", and the menu.
    pub fn draw<F: AsciiFont>(&self, os: &mut OperatingSystem, font: &F, bitmaps: &Bitmaps)
        requires
            old(os).display_sprite.wf(),
            self.menu.wf(),
            title_ok(
                font,
                old(os).display_sprite.width as int,
                old(os).display_sprite.height as int,
                old(os).display_sprite.data@,
                "Settings"@,
                old(os).text_mode,
                old(os).input_shift,
            ),
            menu_ok(
                font,
                bitmaps.entries@,
                old(os).display_sprite.width as int,
                old(os).display_sprite.height as int,
                old(os).display_sprite.data@,
                self.menu,
            ),
        ensures
            final(os).display_sprite.wf(),
            final(os).display_sprite.width == old(os).display_sprite.width,
            final(os).display_sprite.height == old(os).display_sprite.height,
            final(os).display_sprite.text_state() == menu_screen(
                font,
                bitmaps.entries@,
                old(os).display_sprite.width as int,
                old(os).display_sprite.height as int,
                old(os).display_sprite.text_state(),
                "Settings"@,
                self.menu,
                old(os).text_mode,
                old(os).input_shift,
            ),
            final(os).filesystem == old(os).filesystem,
    {
        draw_menu_screen(os, font, bitmaps, "Settings", &self.menu);
    }
}


/// The report of the graphics benchmark: the total of the four timers' measurements, a blank
/// line, the four timers with their subtimers, and a reminder that lower is faster.
pub open spec fn benchmark_report_text(fill: Timer, rectangles: Timer, text: Timer, draw: Timer) -> Seq<char> {
    let total = fill.elapsed + rectangles.elapsed + text.elapsed + draw.elapsed;
    "Total: "@ + decimal(total as nat) + seq!['\n', '\n'] + timer_text(fill, 0) + timer_text(rectangles, 0)
        + timer_text(text, 0) + timer_text(draw, 0) + "\n(Lower is faster)"@
}

/// Appends the characters of `s` to `out`.
fn push_str(out: &mut String, s: &str)
    ensures
        final(out)@ == old(out)@ + s@,
{
    let n = s.unicode_len();
    let ghost start = out@;
    let mut i: usize = 0;
    while i < n
        invariant
            n == s@.len(),
            i <= n,
            out@ == start + s@.subrange(0, i as int),
        decreases n - i,
    {
        push_char(out, s.get_char(i));
        i = i + 1;
        assert(out@ =~= start + s@.subrange(0, i as int));
    }
    assert(s@.subrange(0, n as int) =~= s@);
}

impl SettingsApplication {
    /// The report of the graphics benchmark from its four timers (see `benchmark_report_text`).
    pub fn benchmark_report(fill: &Timer, rectangles: &Timer, text: &Timer, draw: &Timer) -> (r: String)
        requires
            fill.elapsed + rectangles.elapsed + text.elapsed + draw.elapsed <= u64::MAX,
            timer_depth(*fill) <= usize::MAX,
            timer_depth(*rectangles) <= usize::MAX,
            timer_depth(*text) <= usize::MAX,
            timer_depth(*draw) <= usize::MAX,
        ensures
            r@ == benchmark_report_text(*fill, *rectangles, *text, *draw),
    {
        let total = fill.elapsed + rectangles.elapsed + text.elapsed + draw.elapsed;
        let mut out = String::new();
        push_str(&mut out, "Total: ");
        push_decimal(&mut out, total);
        push_char(&mut out, '\n');
        push_char(&mut out, '\n');
        fill.fmt_with_indent_level(&mut out, 0);
        rectangles.fmt_with_indent_level(&mut out, 0);
        text.fmt_with_indent_level(&mut out, 0);
        draw.fmt_with_indent_level(&mut out, 0);
        push_str(&mut out, "\n(Lower is faster)");
        assert(out@ =~= benchmark_report_text(*fill, *rectangles, *text, *draw));
        out
    }
}


impl SettingsApplication {
    /// Shows the report of the graphics benchmark: a black display, the title bar reading
    /// "Results", the report from (0, 40), and "[EXE]: Close" centred across the display 290
    /// pixels down. The caller pushes the display to the screen and waits for EXE.
    pub fn draw_benchmark_results<F: AsciiFont>(os: &mut OperatingSystem, font: &F, report: &str)
        requires
            old(os).display_sprite.wf(),
            title_ok(
                font,
                old(os).display_sprite.width as int,
                old(os).display_sprite.height as int,
                old(os).display_sprite.data@,
                "Results"@,
                old(os).text_mode,
                old(os).input_shift,
            ),
            text_ok(font, old(os).display_sprite.width as int, (0, 40, old(os).display_sprite.data@), report@),
            measurable(font, "[EXE]: Close"@),
            i16::MIN <= old(os).display_sprite.width as i16 - text_width(font, "[EXE]: Close"@) <= i16::MAX,
            text_ok(
                font,
                old(os).display_sprite.width as int,
                (centred_offset(font, old(os).display_sprite.width, "[EXE]: Close"@), 290, old(os).display_sprite.data@),
                "[EXE]: Close"@,
            ),
        ensures
            final(os).display_sprite.wf(),
            final(os).display_sprite.width == old(os).display_sprite.width,
            final(os).display_sprite.height == old(os).display_sprite.height,
            final(os).display_sprite.text_state() == printed(
                font,
                old(os).display_sprite.width as int,
                printed(
                    font,
                    old(os).display_sprite.width as int,
                    titled_blank(
                        font,
                        old(os).display_sprite.width as int,
                        old(os).display_sprite.height as int,
                        old(os).display_sprite.text_state(),
                        "Results"@,
                        old(os).text_mode,
                        old(os).input_shift,
                    ),
                    0,
                    40,
                    report@,
                ),
                centred_offset(font, old(os).display_sprite.width, "[EXE]: Close"@),
                290,
                "[EXE]: Close"@,
            ),
            final(os).filesystem == old(os).filesystem,
    {
        let ghost w = os.display_sprite.width as int;
        let ghost d0 = os.display_sprite.data@;
        clear_with_title(os, font, "Results");
        let ghost d1 = os.display_sprite.data@;
        proof {
            lemma_text_ok_any_pixels(font, w, 0, 40, d0, d1, report@);
            lemma_text_drawn_len(font, w, (0, 40, d1), report@);
        }
        os.display_sprite.print_at(font, 0, 40, report);
        let width = os.display_sprite.width;
        let close = "[EXE]: Close";
        let ghost d2 = os.display_sprite.data@;
        proof {
            lemma_text_ok_any_pixels(font, w, centred_offset(font, width, close@), 290, d0, d2, close@);
            lemma_text_drawn_len(font, w, (centred_offset(font, width, close@), 290, d2), close@);
        }
        os.display_sprite.print_centred(font, 0, 290, width, close);
    }
}

} // verus!
