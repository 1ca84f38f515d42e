use vstd::prelude::*;
use crate::input::{ButtonInput, OSInput};
use crate::bitmap::{bitmap_drawn, bitmap_named, lemma_bitmap_frame, Bitmaps};
use crate::display::{Colour, ShapeFill};
use crate::font::AsciiFont;
use crate::graphics::{clip_ok, Sprite};
use crate::os::{icon_name_of, lowercase_of, painted, printed, title_drawn, title_ok, ApplicationInfo, ApplicationList, OperatingSystem};
use crate::text::{lemma_text_drawn_len, lemma_text_ok_any_pixels, text_ok};
use crate::wrap::{in_i16_range, lemma_wrapped_lines_nonempty, lines_view, words, wrap_ok, wrap_words};

verus! {

/// One entry of a full-page menu.
#[derive(PartialEq, Eq, Clone, Debug)]
pub struct UIFullPageMenuItem {
    pub title: String,
    pub icon: String,
    pub toggle: Option<bool>,
}

/// The number of menu entries shown on one page.
pub const ITEMS_PER_PAGE: usize = 5;

/// The selection after `move_down` in a menu of `len` entries.
pub open spec fn next_index(selected: int, len: int) -> int {
    if selected + 1 == len {
        0
    } else {
        selected + 1
    }
}

/// The selection after `move_up` in a menu of `len` entries.
pub open spec fn previous_index(selected: int, len: int) -> int {
    if selected == 0 {
        len - 1
    } else {
        selected - 1
    }
}

/// A menu of entries filling the screen, a page of `ITEMS_PER_PAGE` at a time, with one selected
/// entry that is always on the page shown.
#[derive(PartialEq, Eq, Clone, Debug)]
pub struct UIFullPageMenu {
    pub items: Vec<UIFullPageMenuItem>,
    pub selected_index: usize,
    pub page_scroll_offset: usize,
}

/// The menu of the operating system's launcher, which behaves as a full-page menu.
pub type UIMenu = UIFullPageMenu;

/// An entry of the launcher's menu.
pub type UIMenuItem = UIFullPageMenuItem;

impl UIFullPageMenu {
    /// The index of the first entry on the page shown.
    pub open spec fn scroll(&self) -> int {
        self.page_scroll_offset as int
    }

    /// In a non-empty menu, the selected entry exists and lies on the page shown, and the page
    /// is either the first or a full one.
    pub open spec fn wf(&self) -> bool {
        self.items@.len() > 0 ==> {
            &&& self.selected_index < self.items@.len()
            &&& self.scroll() <= self.selected_index < self.scroll() + ITEMS_PER_PAGE
            &&& (self.scroll() == 0 || self.scroll() + ITEMS_PER_PAGE <= self.items@.len())
        }
    }

    /// A menu over `items` with the first entry selected.
    pub fn new(items: Vec<UIFullPageMenuItem>) -> (m: Self)
        ensures
            m.items@ == items@,
            m.selected_index == 0,
            m.scroll() == 0,
            m.wf(),
    {
        UIFullPageMenu { items, selected_index: 0, page_scroll_offset: 0 }
    }

    /// Selects the previous entry, wrapping from the first to the last, and scrolls so that the
    /// selected entry is shown. The menu must not be empty.
    pub fn move_up(&mut self)
        requires
            old(self).items@.len() > 0,
            old(self).wf(),
        ensures
            final(self).wf(),
            final(self).items@ == old(self).items@,
            final(self).selected_index == previous_index(old(self).selected_index as int, old(self).items@.len() as int),
            final(self).scroll() == if old(self).selected_index == 0 {
                if old(self).items@.len() > ITEMS_PER_PAGE { old(self).items@.len() - ITEMS_PER_PAGE } else { 0 }
            } else if old(self).selected_index - 1 < old(self).scroll() {
                old(self).scroll() - 1
            } else {
                old(self).scroll()
            },
    {
        if self.selected_index == 0 {
            self.selected_index = self.items.len() - 1;
            if self.items.len() > ITEMS_PER_PAGE {
                self.page_scroll_offset = self.items.len() - ITEMS_PER_PAGE;
            } else {
                self.page_scroll_offset = 0;
            }
        } else {
            self.selected_index = self.selected_index - 1;
            if self.selected_index < self.page_scroll_offset {
                self.page_scroll_offset = self.page_scroll_offset - 1;
            }
        }
    }

    /// Selects the next entry, wrapping from the last to the first, and scrolls so that the
    /// selected entry is shown. The menu must not be empty.
    pub fn move_down(&mut self)
        requires
            old(self).items@.len() > 0,
            old(self).wf(),
        ensures
            final(self).wf(),
            final(self).items@ == old(self).items@,
            final(self).selected_index == next_index(old(self).selected_index as int, old(self).items@.len() as int),
            final(self).scroll() == if old(self).selected_index + 1 == old(self).items@.len() {
                0
            } else if old(self).selected_index + 1 >= old(self).scroll() + ITEMS_PER_PAGE {
                old(self).scroll() + 1
            } else {
                old(self).scroll()
            },
    {
        let n = self.items.len();
        assert(self.selected_index < n);
        self.selected_index = self.selected_index + 1;
        if self.selected_index == self.items.len() {
            self.selected_index = 0;
            self.page_scroll_offset = 0;
        }
        if self.selected_index >= self.page_scroll_offset + ITEMS_PER_PAGE {
            self.page_scroll_offset = self.page_scroll_offset + 1;
        }
    }
}

/// Moving down and then up selects the entry that was selected before.
pub proof fn lemma_move_down_then_up(selected: int, len: int)
    requires
        0 <= selected < len,
    ensures
        previous_index(next_index(selected, len), len) == selected,
{
}

/// Moving up and then down selects the entry that was selected before.
pub proof fn lemma_move_up_then_down(selected: int, len: int)
    requires
        0 <= selected < len,
    ensures
        next_index(previous_index(selected, len), len) == selected,
{
}

/// Moving keeps the selection within the menu.
pub proof fn lemma_moves_stay_in_menu(selected: int, len: int)
    requires
        0 <= selected < len,
    ensures
        0 <= next_index(selected, len) < len,
        0 <= previous_index(selected, len) < len,
{
}

/// The choice in a pop-up list of options, as the operating system's option menu keeps it.
pub struct OptionMenu {
    pub selected_index: usize,
    pub len: usize,
    pub can_close: bool,
}

/// What handling one input of an option menu leads to.
#[derive(PartialEq, Eq, Copy, Clone, Debug, Structural)]
pub enum OptionMenuStep {
    /// The menu stays open.
    Open,
    /// The option at this index was chosen with EXE.
    Chosen(usize),
    /// The menu was closed with LIST.
    Closed,
}

impl OptionMenu {
    /// A menu of `len` options with the first one selected.
    pub fn new(len: usize, can_close: bool) -> (m: Self)
        ensures
            m.selected_index == 0,
            m.len == len,
            m.can_close == can_close,
    {
        OptionMenu { selected_index: 0, len, can_close }
    }

    /// Handles one input: up and down move the selection, wrapping round the ends; EXE chooses
    /// the selected option; LIST closes a menu that can be closed. The menu must have options.
    pub fn handle_input(&mut self, input: Option<OSInput>) -> (r: OptionMenuStep)
        requires
            0 < old(self).len,
            old(self).selected_index < old(self).len,
        ensures
            final(self).len == old(self).len,
            final(self).can_close == old(self).can_close,
            final(self).selected_index < final(self).len,
            final(self).selected_index == match input {
                Some(OSInput::Button(ButtonInput::MoveUp)) => previous_index(old(self).selected_index as int, old(self).len as int),
                Some(OSInput::Button(ButtonInput::MoveDown)) => next_index(old(self).selected_index as int, old(self).len as int),
                _ => old(self).selected_index as int,
            },
            r == match input {
                Some(OSInput::Button(ButtonInput::Exe)) => OptionMenuStep::Chosen(old(self).selected_index),
                Some(OSInput::Button(ButtonInput::List)) => if old(self).can_close {
                    OptionMenuStep::Closed
                } else {
                    OptionMenuStep::Open
                },
                _ => OptionMenuStep::Open,
            },
    {
        match input {
            Some(OSInput::Button(ButtonInput::MoveUp)) => {
                if self.selected_index == 0 {
                    self.selected_index = self.len - 1;
                } else {
                    self.selected_index = self.selected_index - 1;
                }
                OptionMenuStep::Open
            },
            Some(OSInput::Button(ButtonInput::MoveDown)) => {
                let len = self.len;
                let next = self.selected_index + 1;
                self.selected_index = next % len;
                proof {
                    if next < len {
                        vstd::arithmetic::div_mod::lemma_small_mod(next as nat, len as nat);
                    } else {
                        assert((len as int) % (len as int) == 0) by (nonlinear_arith)
                            requires len > 0;
                    }
                }
                OptionMenuStep::Open
            },
            Some(OSInput::Button(ButtonInput::Exe)) => OptionMenuStep::Chosen(self.selected_index),
            Some(OSInput::Button(ButtonInput::List)) => {
                if self.can_close {
                    OptionMenuStep::Closed
                } else {
                    OptionMenuStep::Open
                }
            },
            _ => OptionMenuStep::Open,
        }
    }
}

/// The top of the `k`th entry shown on a page.
pub open spec fn entry_y(k: int) -> int {
    40 + 54 * k
}

/// The lines a title is wrapped into, 120 pixels wide.
pub open spec fn title_lines<F: AsciiFont>(font: &F, title: Seq<char>) -> Seq<Seq<char>> {
    wrap_words(font, 120, words(title)).2
}

/// The name of the bitmap of a toggle in either position.
pub open spec fn toggle_name(on: bool) -> Seq<char> {
    if on {
        "toggle_on"@
    } else {
        "toggle_off"@
    }
}

/// The cursor and pixels after an entry is drawn with its top at `y`: a blue bar behind it when
/// selected, its title (on one line, or the first two of its wrapped lines), its icon, and its
/// toggle if it has one.
#[verifier::opaque]
pub open spec fn entry_drawn<F: AsciiFont>(
    font: &F,
    bitmaps: Seq<(String, Vec<u16>)>,
    width: int,
    height: int,
    state: (int, int, Seq<Colour>),
    item: UIFullPageMenuItem,
    selected: bool,
    y: int,
) -> (int, int, Seq<Colour>) {
    let bar = if selected { painted(state, width, height, 5, y, width - 18, 54, Colour(0x0E), true) } else { state };
    let lines = title_lines(font, item.title@);
    let texted = if lines.len() == 1 {
        printed(font, width, bar, 65, y + 18, lines[0])
    } else {
        printed(font, width, printed(font, width, bar, 65, y + 7, lines[0]), 65, y + 28, lines[1])
    };
    let iconed = (texted.0, texted.1, bitmap_drawn(bitmap_named(bitmaps, item.icon@).unwrap(), texted.2, width, 7, y + 2).unwrap());
    match item.toggle {
        Some(on) => (
            iconed.0,
            iconed.1,
            bitmap_drawn(bitmap_named(bitmaps, toggle_name(on)).unwrap(), iconed.2, width, 195, y + 20).unwrap(),
        ),
        None => iconed,
    }
}

/// Whether an entry can be drawn with its top at `y` without a fault: its title can be wrapped
/// and its lines drawn, the bar fits, and its icon and toggle are in the table and can be drawn.
#[verifier::opaque]
pub open spec fn entry_ok<F: AsciiFont>(
    font: &F,
    bitmaps: Seq<(String, Vec<u16>)>,
    width: int,
    height: int,
    pixels: Seq<Colour>,
    item: UIFullPageMenuItem,
    selected: bool,
    y: int,
) -> bool {
    let lines = title_lines(font, item.title@);
    &&& font.glyph(65) is Some
    &&& wrap_ok(font, 120, words(item.title@))
    &&& in_i16_range(wrap_words(font, 120, words(item.title@)).1 + font.glyph(65).unwrap().1)
    &&& y + 28 <= i16::MAX
    &&& selected ==> width >= 18 && clip_ok(5, width - 18, width) && clip_ok(y, 54, height)
    &&& lines.len() == 1 ==> text_ok(font, width, (65, y + 18, pixels), lines[0])
    &&& lines.len() != 1 ==> text_ok(font, width, (65, y + 7, pixels), lines[0]) && text_ok(font, width, (65, y + 28, pixels), lines[1])
    &&& bitmap_named(bitmaps, item.icon@) is Some
    &&& bitmap_drawn(bitmap_named(bitmaps, item.icon@).unwrap(), pixels, width, 7, y + 2) is Some
    &&& item.toggle matches Some(on) ==> {
        &&& bitmap_named(bitmaps, toggle_name(on)) is Some
        &&& bitmap_drawn(bitmap_named(bitmaps, toggle_name(on)).unwrap(), pixels, width, 195, y + 20) is Some
    }
}

proof fn lemma_entry_ok_any_pixels<F: AsciiFont>(
    font: &F,
    bitmaps: Seq<(String, Vec<u16>)>,
    width: int,
    height: int,
    p1: Seq<Colour>,
    p2: Seq<Colour>,
    item: UIFullPageMenuItem,
    selected: bool,
    y: int,
)
    requires
        p1.len() == p2.len(),
        entry_ok(font, bitmaps, width, height, p1, item, selected, y),
    ensures
        entry_ok(font, bitmaps, width, height, p2, item, selected, y),
{
    reveal(entry_ok);
    let lines = title_lines(font, item.title@);
    lemma_wrapped_lines_nonempty(font, 120, words(item.title@));
    if lines.len() == 1 {
        lemma_text_ok_any_pixels(font, width, 65, y + 18, p1, p2, lines[0]);
    } else {
        lemma_text_ok_any_pixels(font, width, 65, y + 7, p1, p2, lines[0]);
        lemma_text_ok_any_pixels(font, width, 65, y + 28, p1, p2, lines[1]);
    }
    lemma_bitmap_frame(bitmap_named(bitmaps, item.icon@).unwrap(), p1, p2, width, 7, y + 2);
    if let Some(on) = item.toggle {
        lemma_bitmap_frame(bitmap_named(bitmaps, toggle_name(on)).unwrap(), p1, p2, width, 195, y + 20);
    }
}

/// The number of entries shown on the page.
pub open spec fn shown(menu: UIFullPageMenu) -> int {
    let rest = menu.items@.len() - menu.page_scroll_offset;
    if rest < ITEMS_PER_PAGE {
        rest
    } else {
        ITEMS_PER_PAGE as int
    }
}

/// The cursor and pixels after the first `k` entries of the page are drawn.
pub open spec fn entries_drawn<F: AsciiFont>(
    font: &F,
    bitmaps: Seq<(String, Vec<u16>)>,
    width: int,
    height: int,
    state: (int, int, Seq<Colour>),
    menu: UIFullPageMenu,
    k: int,
) -> (int, int, Seq<Colour>)
    decreases k,
{
    if k <= 0 {
        state
    } else {
        let i = menu.page_scroll_offset + k - 1;
        entry_drawn(
            font,
            bitmaps,
            width,
            height,
            entries_drawn(font, bitmaps, width, height, state, menu, k - 1),
            menu.items@[i],
            i == menu.selected_index,
            entry_y(k - 1),
        )
    }
}

/// Whether the `k`th entry of the page can be drawn without a fault.
pub open spec fn page_entry_ok<F: AsciiFont>(
    font: &F,
    bitmaps: Seq<(String, Vec<u16>)>,
    width: int,
    height: int,
    pixels: Seq<Colour>,
    menu: UIFullPageMenu,
    k: int,
) -> bool {
    let i = menu.page_scroll_offset + k;
    entry_ok(font, bitmaps, width, height, pixels, menu.items@[i], i == menu.selected_index, entry_y(k))
}

/// The scroll bar's height per entry, its offset down the bar's column, and its height: the
/// column is as tall as a page of entries, and the bar covers the part of it the page shows.
pub open spec fn scroll_bar(menu: UIFullPageMenu) -> (int, int, int) {
    let len = menu.items@.len() as int;
    let per_item = 270int / len;
    let page = if len < ITEMS_PER_PAGE { len } else { ITEMS_PER_PAGE as int };
    (per_item, per_item * menu.page_scroll_offset, per_item * page)
}

/// The cursor and pixels after a menu is drawn on a display `width` by `height`: "No items" when
/// it is empty, else the entries of its page from 40 pixels down, 54 apart, and a dark blue
/// scroll bar at the right edge.
pub open spec fn menu_drawn<F: AsciiFont>(
    font: &F,
    bitmaps: Seq<(String, Vec<u16>)>,
    width: int,
    height: int,
    state: (int, int, Seq<Colour>),
    menu: UIFullPageMenu,
) -> (int, int, Seq<Colour>) {
    if menu.items@.len() == 0 {
        printed(font, width, state, 75, 40, "No items"@)
    } else {
        let listed = entries_drawn(font, bitmaps, width, height, state, menu, shown(menu));
        let (_, offset, bar) = scroll_bar(menu);
        painted(listed, width, height, (width as i16) - 8, 40 + offset, 4, bar, Colour(0x09), true)
    }
}

/// Whether a menu can be drawn on a display `width` by `height` whose pixels are `pixels`
/// without a fault.
pub open spec fn menu_ok<F: AsciiFont>(
    font: &F,
    bitmaps: Seq<(String, Vec<u16>)>,
    width: int,
    height: int,
    pixels: Seq<Colour>,
    menu: UIFullPageMenu,
) -> bool {
    if menu.items@.len() == 0 {
        text_ok(font, width, (75, 40, pixels), "No items"@)
    } else {
        let (_, offset, bar) = scroll_bar(menu);
        &&& forall|k: int| 0 <= k < shown(menu) ==> #[trigger] page_entry_ok(font, bitmaps, width, height, pixels, menu, k)
        &&& (width as i16) - 8 >= i16::MIN
        &&& clip_ok((width as i16) - 8, 4, width)
        &&& clip_ok(40 + offset, bar, height)
    }
}

impl UIFullPageMenu {
    /// Draws one entry with its top at `y`.
    fn draw_entry<F: AsciiFont>(sprite: &mut Sprite, font: &F, bitmaps: &Bitmaps, item: &UIFullPageMenuItem, selected: bool, y: i16)
        requires
            old(sprite).wf(),
            entry_ok(font, bitmaps.entries@, old(sprite).width as int, old(sprite).height as int, old(sprite).data@, *item, selected, y as int),
        ensures
            final(sprite).wf(),
            final(sprite).width == old(sprite).width,
            final(sprite).height == old(sprite).height,
            final(sprite).text_state() == entry_drawn(
                font,
                bitmaps.entries@,
                old(sprite).width as int,
                old(sprite).height as int,
                old(sprite).text_state(),
                *item,
                selected,
                y as int,
            ),
    {
        let ghost w = sprite.width as int;
        let ghost h = sprite.height as int;
        let ghost d0 = sprite.data@;
        let ghost entries = bitmaps.entries@;
        proof {
            reveal(entry_drawn);
            reveal(entry_ok);
            lemma_wrapped_lines_nonempty(font, 120, words(item.title@));
        }
        let (lines, _, _) = sprite.wrap_text(font, item.title.as_str(), 120);
        assert(lines@.len() == title_lines(font, item.title@).len());
        if selected {
            let bar_width = sprite.width - 5 * 2 - 8;
            sprite.draw_rect(5, y, bar_width, 54, Colour::blue(), ShapeFill::Filled, 7);
        }
        let ghost d1 = sprite.data@;
        proof {
            lemma_entry_ok_any_pixels(font, entries, w, h, d0, d1, *item, selected, y as int);
        }
        if lines.len() == 1 {
            assert(lines@[0]@ == title_lines(font, item.title@)[0]);
            sprite.print_at(font, 65, y + 18, lines[0].as_str());
            proof {
                lemma_text_drawn_len(font, w, (65, y + 18, d1), lines@[0]@);
            }
        } else {
            assert(lines@[0]@ == title_lines(font, item.title@)[0]);
            assert(lines@[1]@ == title_lines(font, item.title@)[1]);
            sprite.print_at(font, 65, y + 7, lines[0].as_str());
            let ghost d2 = sprite.data@;
            proof {
                lemma_text_drawn_len(font, w, (65, y + 7, d1), lines@[0]@);
                lemma_text_ok_any_pixels(font, w, 65, y + 28, d0, d2, lines@[1]@);
            }
            sprite.print_at(font, 65, y + 28, lines[1].as_str());
            proof {
                lemma_text_drawn_len(font, w, (65, y + 28, d2), lines@[1]@);
            }
        }
        let ghost d3 = sprite.data@;
        proof {
            lemma_entry_ok_any_pixels(font, entries, w, h, d0, d3, *item, selected, y as int);
            lemma_bitmap_frame(bitmap_named(entries, item.icon@).unwrap(), d3, d3, w, 7, y + 2);
        }
        let icon = match bitmaps.lookup(&item.icon) {
            Some(b) => b,
            None => {
                return vstd::pervasive::unreached();
            },
        };
        sprite.draw_bitmap(7, y + 2, icon.as_slice());
        match item.toggle {
            Some(on) => {
                let name = if on { "toggle_on" } else { "toggle_off" };
                let key = name.to_owned();
                let ghost d4 = sprite.data@;
                proof {
                    lemma_entry_ok_any_pixels(font, entries, w, h, d0, d4, *item, selected, y as int);
                    lemma_bitmap_frame(bitmap_named(entries, toggle_name(on)).unwrap(), d4, d4, w, 195, y + 20);
                }
                let toggle = match bitmaps.lookup(&key) {
                    Some(b) => b,
                    None => {
                        return vstd::pervasive::unreached();
                    },
                };
                sprite.draw_bitmap(195, y + 20, toggle.as_slice());
            },
            None => {},
        }
    }

    /// Draws the menu onto `sprite`: "No items" when it is empty; else each entry of the page shown,
    /// the selected one on a blue bar, with its title wrapped to 120 pixels, its icon and its
    /// toggle, looked up in `bitmaps`; and a dark blue scroll bar at the right edge.
    pub fn draw<F: AsciiFont>(&self, sprite: &mut Sprite, font: &F, bitmaps: &Bitmaps)
        requires
            self.wf(),
            old(sprite).wf(),
            menu_ok(font, bitmaps.entries@, old(sprite).width as int, old(sprite).height as int, old(sprite).data@, *self),
        ensures
            final(sprite).wf(),
            final(sprite).width == old(sprite).width,
            final(sprite).height == old(sprite).height,
            final(sprite).text_state() == menu_drawn(
                font,
                bitmaps.entries@,
                old(sprite).width as int,
                old(sprite).height as int,
                old(sprite).text_state(),
                *self,
            ),
    {
        let ghost w = sprite.width as int;
        let ghost h = sprite.height as int;
        let ghost d0 = sprite.data@;
        let ghost entries = bitmaps.entries@;
        if self.items.len() == 0 {
            let empty = "No items";
            sprite.print_at(font, 75, 40, empty);
            proof {
                lemma_text_drawn_len(font, w, (75, 40, d0), empty@);
            }
            return;
        }
        let len: usize = self.items.len();
        let rest = len - self.page_scroll_offset;
        let count = if rest < ITEMS_PER_PAGE { rest } else { ITEMS_PER_PAGE };
        let mut k: usize = 0;
        while k < count
            invariant
                len == self.items@.len(),
                self.wf(),
                self.items@.len() > 0,
                count == shown(*self),
                self.page_scroll_offset + count <= self.items@.len(),
                k <= count,
                sprite.wf(),
                w == sprite.width,
                h == sprite.height,
                entries == bitmaps.entries@,
                d0.len() == w * h,
                forall|j: int| 0 <= j < shown(*self) ==> #[trigger] page_entry_ok(font, entries, w, h, d0, *self, j),
                sprite.text_state() == entries_drawn(font, entries, w, h, (old(sprite).cursor_x as int, old(sprite).cursor_y as int, d0), *self, k as int),
            decreases count - k,
        {
            let i = self.page_scroll_offset + k;
            let y = 40 + 54 * (k as i16);
            assert(page_entry_ok(font, entries, w, h, d0, *self, k as int));
            proof {
                lemma_entry_ok_any_pixels(font, entries, w, h, d0, sprite.data@, self.items@[i as int], i == self.selected_index, y as int);
            }
            Self::draw_entry(sprite, font, bitmaps, &self.items[i], i == self.selected_index, y);
            k = k + 1;
        }
        let per_item: usize = 270 / len;
        let page = if len < ITEMS_PER_PAGE { len } else { ITEMS_PER_PAGE };
        assert(per_item * self.page_scroll_offset <= 270 && per_item * page <= 270) by (nonlinear_arith)
            requires
                per_item == 270usize / len,
                len > 0,
                self.page_scroll_offset + 1 <= len,
                page <= len,
                self.page_scroll_offset == 0 || self.page_scroll_offset + 5 <= len,
        {
            assert(per_item * len <= 270);
        }
        let bar_offset = per_item * self.page_scroll_offset;
        let bar_height = per_item * page;
        let x = (#[verifier::truncate] (sprite.width as i16)) - 8;
        sprite.draw_rect(x, 40 + bar_offset as i16, 4, bar_height as u16, Colour::dark_blue(), ShapeFill::Filled, 2);
    }
}

/// The launcher: a full-page menu of the registered applications.
pub struct MenuApplication {
    pub menu: UIMenu,
}

/// Whether `items` are the launcher entries of `apps`: each application's name, its icon, and no
/// toggle.
pub open spec fn launcher_entries(items: Seq<UIFullPageMenuItem>, apps: Seq<crate::os::ApplicationInfo>) -> bool {
    &&& items.len() == apps.len()
    &&& forall|i: int| 0 <= i < items.len() ==> {
        &&& #[trigger] items[i].title@ == apps[i].name@
        &&& items[i].icon@ == icon_name_of(lowercase_of(apps[i].name@))
        &&& items[i].toggle is None
    }
}

/// The cursor and pixels of the launcher's screen on a display `width` by `height` whose cursor
/// and pixels were `state`: black, the title bar reading "Menu", and the menu.
pub open spec fn launcher_screen<F: AsciiFont>(
    font: &F,
    bitmaps: Seq<(String, Vec<u16>)>,
    width: int,
    height: int,
    state: (int, int, Seq<Colour>),
    menu: UIFullPageMenu,
    text_mode: bool,
    shift: bool,
) -> (int, int, Seq<Colour>) {
    menu_screen(font, bitmaps, width, height, state, "Menu"@, menu, text_mode, shift)
}

/// The cursor and pixels of a display `width` by `height` whose cursor and pixels were `state`,
/// after a screen of a full-page menu is drawn: black, the title bar reading `title`, and the
/// menu.
pub open spec fn menu_screen<F: AsciiFont>(
    font: &F,
    bitmaps: Seq<(String, Vec<u16>)>,
    width: int,
    height: int,
    state: (int, int, Seq<Colour>),
    title: Seq<char>,
    menu: UIFullPageMenu,
    text_mode: bool,
    shift: bool,
) -> (int, int, Seq<Colour>) {
    let blank = (state.0, state.1, Seq::new((width * height) as nat, |i: int| Colour(0)));
    menu_drawn(font, bitmaps, width, height, title_drawn(font, width, height, blank, title, text_mode, shift), menu)
}

/// Draws a screen of a full-page menu: a black display, the title bar reading `title`, and
/// `menu`, its icons looked up in `bitmaps`.
pub fn draw_menu_screen<F: AsciiFont>(os: &mut OperatingSystem, font: &F, bitmaps: &Bitmaps, title: &str, menu: &UIFullPageMenu)
    requires
        old(os).display_sprite.wf(),
        menu.wf(),
        title_ok(
            font,
            old(os).display_sprite.width as int,
            old(os).display_sprite.height as int,
            old(os).display_sprite.data@,
            title@,
            old(os).text_mode,
            old(os).input_shift,
        ),
        menu_ok(
            font,
            bitmaps.entries@,
            old(os).display_sprite.width as int,
            old(os).display_sprite.height as int,
            old(os).display_sprite.data@,
            *menu,
        ),
    ensures
        final(os).display_sprite.wf(),
        final(os).display_sprite.width == old(os).display_sprite.width,
        final(os).display_sprite.height == old(os).display_sprite.height,
        final(os).display_sprite.text_state() == menu_screen(
            font,
            bitmaps.entries@,
            old(os).display_sprite.width as int,
            old(os).display_sprite.height as int,
            old(os).display_sprite.text_state(),
            title@,
            *menu,
            old(os).text_mode,
            old(os).input_shift,
        ),
        final(os).filesystem == old(os).filesystem,
        final(os).text_mode == old(os).text_mode,
        final(os).input_shift == old(os).input_shift,
        final(os).showing_menu == old(os).showing_menu,
        final(os).active_application_index == old(os).active_application_index,
{
    let ghost w = os.display_sprite.width as int;
    let ghost h = os.display_sprite.height as int;
    let ghost d0 = os.display_sprite.data@;
    os.display_sprite.fill(Colour::black());
    let ghost blank = os.display_sprite.text_state();
    assert(blank.2 =~= Seq::new((w * h) as nat, |i: int| Colour(0)));
    proof {
        lemma_text_ok_any_pixels(font, w, 5, 7, d0, blank.2, title@);
        if old(os).text_mode {
            lemma_text_ok_any_pixels(font, w, 149, 6, d0, blank.2, "TEXT"@);
            lemma_text_ok_any_pixels(font, w, 153, 6, d0, blank.2, "text"@);
        }
    }
    os.ui_draw_title(font, title);
    proof {
        lemma_menu_ok_any_pixels(font, bitmaps.entries@, w, h, d0, os.display_sprite.data@, *menu);
    }
    menu.draw(&mut os.display_sprite, font, bitmaps);
}

impl MenuApplication {
    /// How the launcher lists this application: as "Menu", hidden.
    pub fn info() -> (r: ApplicationInfo)
        ensures
            r.name@ == "Menu"@,
            !r.visible,
    {
        ApplicationInfo { name: "Menu".to_owned(), visible: false }
    }

    /// A launcher with no entries yet.
    pub fn new() -> (m: Self)
        ensures
            m.menu.items@.len() == 0,
            m.menu.selected_index == 0,
            m.menu.page_scroll_offset == 0,
    {
        MenuApplication { menu: UIFullPageMenu::new(Vec::new()) }
    }

    /// The launcher entries for the registered applications, or `None` when an application's name
    /// is empty once in lower case, so that it has no icon name.
    pub fn entries_for(list: &ApplicationList) -> (r: Option<Vec<UIFullPageMenuItem>>)
        ensures
            r is Some == forall|i: int| 0 <= i < list.applications@.len() ==> #[trigger] lowercase_of(list.applications@[i].name@).len() > 0,
            r matches Some(items) ==> launcher_entries(items@, list.applications@),
    {
        let mut items: Vec<UIFullPageMenuItem> = Vec::new();
        let mut i: usize = 0;
        while i < list.applications.len()
            invariant
                i <= list.applications@.len(),
                launcher_entries(items@, list.applications@.subrange(0, i as int)),
                forall|j: int| 0 <= j < i ==> #[trigger] lowercase_of(list.applications@[j].name@).len() > 0,
            decreases list.applications@.len() - i,
        {
            let info = &list.applications[i];
            let icon = match info.icon_name() {
                Some(name) => name,
                None => {
                    return None;
                },
            };
            let title = info.name.clone();
            let ghost before = items@;
            let ghost prefix = list.applications@.subrange(0, i as int);
            items.push(UIFullPageMenuItem { title, icon, toggle: None });
            proof {
                let next = list.applications@.subrange(0, i + 1);
                assert forall|j: int| 0 <= j < items@.len() implies {
                    &&& #[trigger] items@[j].title@ == next[j].name@
                    &&& items@[j].icon@ == icon_name_of(lowercase_of(next[j].name@))
                    &&& items@[j].toggle is None
                } by {
                    if j < i {
                        assert(items@[j] == before[j]);
                        assert(next[j] == prefix[j]);
                        assert(before[j].title@ == prefix[j].name@);
                    } else {
                        assert(next[j] == list.applications@[i as int]);
                    }
                }
            }
            i = i + 1;
        }
        assert(list.applications@.subrange(0, i as int) =~= list.applications@);
        Some(items)
    }

    /// Sets the entries to those of the registered applications, keeping the selection, and
    /// returns whether it could: not when an application has no icon name, which leaves the
    /// launcher unchanged.
    pub fn refresh_items(&mut self, list: &ApplicationList) -> (r: bool)
        ensures
            r == forall|i: int| 0 <= i < list.applications@.len() ==> #[trigger] lowercase_of(list.applications@[i].name@).len() > 0,
            r ==> launcher_entries(final(self).menu.items@, list.applications@),
            !r ==> final(self).menu.items@ == old(self).menu.items@,
            final(self).menu.selected_index == old(self).menu.selected_index,
            final(self).menu.page_scroll_offset == old(self).menu.page_scroll_offset,
    {
        match Self::entries_for(list) {
            Some(items) => {
                self.menu.items = items;
                true
            },
            None => false,
        }
    }

    /// Handles a key: up and down move the selection, and EXE gives the index of the application
    /// to launch; other keys do nothing.
    pub fn handle_input(&mut self, button: ButtonInput) -> (r: Option<usize>)
        requires
            old(self).menu.wf(),
            button == ButtonInput::MoveUp || button == ButtonInput::MoveDown ==> old(self).menu.items@.len() > 0,
        ensures
            final(self).menu.wf(),
            final(self).menu.items@ == old(self).menu.items@,
            button == ButtonInput::MoveUp ==> final(self).menu.selected_index == previous_index(
                old(self).menu.selected_index as int,
                old(self).menu.items@.len() as int,
            ),
            button == ButtonInput::MoveDown ==> final(self).menu.selected_index == next_index(
                old(self).menu.selected_index as int,
                old(self).menu.items@.len() as int,
            ),
            button == ButtonInput::Exe ==> r == Some(old(self).menu.selected_index) && final(self).menu == old(self).menu,
            button != ButtonInput::Exe ==> r is None,
            button != ButtonInput::MoveUp && button != ButtonInput::MoveDown ==> final(self).menu == old(self).menu,
    {
        match button {
            ButtonInput::MoveUp => {
                self.menu.move_up();
                None
            },
            ButtonInput::MoveDown => {
                self.menu.move_down();
                None
            },
            ButtonInput::Exe => Some(self.menu.selected_index),
            _ => None,
        }
    }

    /// Draws the launcher: a black screen, the title bar reading "Menu", and the menu.
    pub fn draw<F: AsciiFont>(&self, os: &mut OperatingSystem, font: &F, bitmaps: &Bitmaps)
        requires
            old(os).display_sprite.wf(),
            self.menu.wf(),
            title_ok(
                font,
                old(os).display_sprite.width as int,
                old(os).display_sprite.height as int,
                old(os).display_sprite.data@,
                "Menu"@,
                old(os).text_mode,
                old(os).input_shift,
            ),
            menu_ok(
                font,
                bitmaps.entries@,
                old(os).display_sprite.width as int,
                old(os).display_sprite.height as int,
                old(os).display_sprite.data@,
                self.menu,
            ),
        ensures
            final(os).display_sprite.wf(),
            final(os).display_sprite.width == old(os).display_sprite.width,
            final(os).display_sprite.height == old(os).display_sprite.height,
            final(os).display_sprite.text_state() == launcher_screen(
                font,
                bitmaps.entries@,
                old(os).display_sprite.width as int,
                old(os).display_sprite.height as int,
                old(os).display_sprite.text_state(),
                self.menu,
                old(os).text_mode,
                old(os).input_shift,
            ),
            final(os).filesystem == old(os).filesystem,
            final(os).text_mode == old(os).text_mode,
            final(os).input_shift == old(os).input_shift,
            final(os).showing_menu == old(os).showing_menu,
            final(os).active_application_index == old(os).active_application_index,
    {
        draw_menu_screen(os, font, bitmaps, "Menu", &self.menu);
    }
}

proof fn lemma_menu_ok_any_pixels<F: AsciiFont>(
    font: &F,
    bitmaps: Seq<(String, Vec<u16>)>,
    width: int,
    height: int,
    p1: Seq<Colour>,
    p2: Seq<Colour>,
    menu: UIFullPageMenu,
)
    requires
        p1.len() == p2.len(),
        menu_ok(font, bitmaps, width, height, p1, menu),
    ensures
        menu_ok(font, bitmaps, width, height, p2, menu),
{
    if menu.items@.len() == 0 {
        lemma_text_ok_any_pixels(font, width, 75, 40, p1, p2, "No items"@);
    } else {
        assert forall|k: int| 0 <= k < shown(menu) implies #[trigger] page_entry_ok(font, bitmaps, width, height, p2, menu, k) by {
            assert(page_entry_ok(font, bitmaps, width, height, p1, menu, k));
            let i = menu.page_scroll_offset + k;
            lemma_entry_ok_any_pixels(font, bitmaps, width, height, p1, p2, menu.items@[i], i == menu.selected_index, entry_y(k));
        }
    }
}

/// The top of an option menu of `len` options on a display `height` pixels high: 30 pixels per
/// option and 10 more above the bottom.
pub open spec fn option_menu_top(height: int, len: int) -> int {
    (height as i16) - 30 * (len as i16) - 10
}

/// The cursor and pixels after the first `k` options are drawn, 30 pixels apart from `y`, the
/// selected one on a blue bar.
pub open spec fn options_drawn<F: AsciiFont>(font: &F, width: int, height: int, state: (int, int, Seq<Colour>), options: Seq<Seq<char>>, selected: int, y: int, k: int) -> (int, int, Seq<Colour>)
    decreases k,
{
    if k <= 0 {
        state
    } else {
        let i = k - 1;
        let top = y + 30 * i;
        let before = options_drawn(font, width, height, state, options, selected, y, k - 1);
        let lit = if i == selected { painted(before, width, height, 5, top, width - 10, 25, Colour(0x0E), true) } else { before };
        printed(font, width, lit, 10, top + 4, options[i])
    }
}

/// The cursor and pixels after an option menu is drawn on a display `width` by `height`: a grey
/// panel with a white border rising from the bottom, and the options in it.
pub open spec fn option_menu_drawn<F: AsciiFont>(font: &F, width: int, height: int, state: (int, int, Seq<Colour>), options: Seq<Seq<char>>, selected: int) -> (int, int, Seq<Colour>) {
    let top = option_menu_top(height, options.len() as int);
    let panel = painted(state, width, height, 0, top, 240, 400, Colour(0x24), true);
    let framed = painted(panel, width, height, 0, top, 240, 400, Colour(0xFF), false);
    options_drawn(font, width, height, framed, options, selected, top + 10, options.len() as int)
}

/// Whether option `i` can be drawn without a fault.
pub open spec fn option_ok<F: AsciiFont>(font: &F, width: int, height: int, pixels: Seq<Colour>, options: Seq<Seq<char>>, selected: int, i: int) -> bool {
    let top = option_menu_top(height, options.len() as int) + 10 + 30 * i;
    &&& top + 4 <= i16::MAX
    &&& i == selected ==> width >= 10 && clip_ok(5, width - 10, width) && clip_ok(top, 25, height)
    &&& text_ok(font, width, (10, top + 4, pixels), options[i])
}

impl OptionMenu {
    /// Draws the menu with its `options`: a grey panel with a white border rising from the
    /// bottom of the display by 30 pixels per option, and the options in it, the selected one on
    /// a blue bar.
    pub fn draw<F: AsciiFont>(&self, sprite: &mut Sprite, font: &F, options: &Vec<String>)
        requires
            options@.len() == self.len,
            old(sprite).wf(),
            self.len <= 1000,
            -32768 <= (old(sprite).height as i16) - 30 * self.len - 10,
            clip_ok(option_menu_top(old(sprite).height as int, self.len as int), 400, old(sprite).height as int),
            forall|i: int| 0 <= i < self.len ==> #[trigger] option_ok(
                font,
                old(sprite).width as int,
                old(sprite).height as int,
                old(sprite).data@,
                lines_view(options@),
                self.selected_index as int,
                i,
            ),
        ensures
            final(sprite).wf(),
            final(sprite).width == old(sprite).width,
            final(sprite).height == old(sprite).height,
            final(sprite).text_state() == option_menu_drawn(
                font,
                old(sprite).width as int,
                old(sprite).height as int,
                old(sprite).text_state(),
                lines_view(options@),
                self.selected_index as int,
            ),
    {
        let ghost w = sprite.width as int;
        let ghost h = sprite.height as int;
        let ghost d0 = sprite.data@;
        let ghost texts = lines_view(options@);
        let mut y: i16 = (#[verifier::truncate] (sprite.height as i16)) - 30 * (options.len() as i16) - 10;
        sprite.draw_rect(0, y, 240, 400, Colour::grey(), ShapeFill::Filled, 10);
        sprite.draw_rect(0, y, 240, 400, Colour::white(), ShapeFill::Hollow, 10);
        let ghost framed = sprite.text_state();
        y = y + 10;
        let ghost start = y as int;
        let mut i: usize = 0;
        while i < options.len()
            invariant
                i <= options@.len(),
                options@.len() == self.len,
                self.len <= 1000,
                texts == lines_view(options@),
                start == option_menu_top(h, self.len as int) + 10,
                y as int == start + 30 * i,
                sprite.wf(),
                w == sprite.width,
                h == sprite.height,
                d0.len() == w * h,
                forall|j: int| 0 <= j < self.len ==> #[trigger] option_ok(font, w, h, d0, texts, self.selected_index as int, j),
                sprite.text_state() == options_drawn(font, w, h, framed, texts, self.selected_index as int, start, i as int),
            decreases options@.len() - i,
        {
            assert(option_ok(font, w, h, d0, texts, self.selected_index as int, i as int));
            if i == self.selected_index {
                let bar = sprite.width - 5 * 2;
                sprite.draw_rect(5, y, bar, 25, Colour::blue(), ShapeFill::Filled, 7);
            }
            proof {
                lemma_text_ok_any_pixels(font, w, 10, y + 4, d0, sprite.data@, texts[i as int]);
                lemma_text_drawn_len(font, w, (10, y + 4, sprite.data@), texts[i as int]);
            }
            sprite.print_at(font, 10, y + 4, options[i].as_str());
            if i + 1 < options.len() {
                assert(option_ok(font, w, h, d0, texts, self.selected_index as int, i + 1));
                y = y + 30;
            } else {
                y = #[verifier::truncate] ((y as i32 + 30) as i16);
            }
            i = i + 1;
        }
    }
}

} // verus!
