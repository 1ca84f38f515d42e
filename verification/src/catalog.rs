use vstd::prelude::*;
use crate::input::{ButtonInput, OSInput};
use crate::selector::{SelectorMenu, SelectorMenuItem, SelectorMenuTickResult};
use crate::display::{Colour, ShapeFill};
use crate::font::AsciiFont;
use crate::graphics::clip_ok;
use crate::os::{painted, printed, title_drawn, title_ok, OperatingSystem};
use crate::text::{lemma_text_drawn_len, lemma_text_ok_any_pixels, text_ok};
use crate::wrap::{in_i16_range, lemma_wrapped_lines_nonempty, words, wrap_ok, wrap_words};

verus! {

/// An entry of a catalog, with a description shown while it is hovered and a value to hand back
/// when it is chosen.
pub struct CatalogItem<T> {
    pub name: String,
    pub description: String,
    pub metadata: T,
}

impl<T> CatalogItem<T> {
    pub fn new(name: String, description: String, metadata: T) -> (r: Self)
        ensures
            r.name@ == name@,
            r.description@ == description@,
            r.metadata == metadata,
    {
        CatalogItem { name, description, metadata }
    }
}

impl<T> SelectorMenuItem for CatalogItem<T> {
    type Inner = T;

    /// Every catalog entry carries a value.
    open spec fn has_inner(&self) -> bool {
        true
    }

    open spec fn inner_value(&self) -> T {
        self.metadata
    }

    fn inner(&self) -> (r: &T) {
        &self.metadata
    }

    fn into_inner(self) -> (r: T) {
        self.metadata
    }
}

/// The number of columns in which a catalog lays out its entries.
pub const CATALOG_COLUMNS: usize = 3;

/// The hovered index after one arrow key in a catalog of `len` entries laid out row by row in
/// three columns: left and right stay within the row, up and down move by a whole row, and no
/// move leaves the list.
pub open spec fn catalog_move(selected: int, len: int, key: ButtonInput) -> int {
    match key {
        ButtonInput::MoveLeft => if selected % 3 != 0 { selected - 1 } else { selected },
        ButtonInput::MoveRight => if selected % 3 != 2 && selected + 1 < len { selected + 1 } else { selected },
        ButtonInput::MoveUp => if selected >= 3 { selected - 3 } else { selected },
        ButtonInput::MoveDown => if selected + 3 < len { selected + 3 } else { selected },
        _ => selected,
    }
}

/// A pop-up dialog with its entries laid out in three columns, one of which is hovered.
pub struct Catalog<T> {
    title: String,
    items: Vec<CatalogItem<T>>,
    selected_index: usize,
}

impl<T> Catalog<T> {
    /// The title shown above the catalog.
    pub closed spec fn title_text(&self) -> Seq<char> {
        self.title@
    }

    /// The catalog's entries.
    pub closed spec fn entries(&self) -> Seq<CatalogItem<T>> {
        self.items@
    }

    /// The index of the hovered entry.
    pub closed spec fn hovered_index(&self) -> int {
        self.selected_index as int
    }

    /// The hovered index is never negative.
    pub proof fn lemma_hovered_nonneg(&self)
        ensures
            0 <= self.hovered_index(),
    {
    }

    /// A catalog over `items` hovering the first entry.
    pub fn new(title: String, items: Vec<CatalogItem<T>>) -> (c: Self)
        ensures
            c.title_text() == title@,
            c.entries() == items@,
            c.hovered_index() == 0,
    {
        Catalog { title, items, selected_index: 0 }
    }

    /// The title shown above the catalog.
    pub fn title(&self) -> (r: &String)
        ensures
            r@ == self.title_text(),
    {
        &self.title
    }

    /// Handles one input: the arrow keys move the hover within the grid, EXE chooses the hovered
    /// entry, and LIST dismisses the catalog.
    pub fn handle_input(&mut self, input: Option<OSInput>) -> (r: SelectorMenuTickResult)
        requires
            old(self).hovered_index() < old(self).entries().len() || old(self).hovered_index() == 0,
        ensures
            final(self).entries() == old(self).entries(),
            final(self).title_text() == old(self).title_text(),
            final(self).hovered_index() == match input {
                Some(OSInput::Button(key)) => catalog_move(old(self).hovered_index(), old(self).entries().len() as int, key),
                _ => old(self).hovered_index(),
            },
            r == match input {
                Some(OSInput::Button(ButtonInput::Exe)) => SelectorMenuTickResult::Selected,
                Some(OSInput::Button(ButtonInput::List)) => SelectorMenuTickResult::Cancelled,
                _ => SelectorMenuTickResult::Normal,
            },
    {
        let n = self.items.len();
        match input {
            Some(OSInput::Button(ButtonInput::MoveLeft)) => {
                if self.selected_index % 3 != 0 {
                    self.selected_index = self.selected_index - 1;
                }
                SelectorMenuTickResult::Normal
            },
            Some(OSInput::Button(ButtonInput::MoveRight)) => {
                if self.selected_index % 3 != 2 && self.selected_index + 1 < n {
                    self.selected_index = self.selected_index + 1;
                }
                SelectorMenuTickResult::Normal
            },
            Some(OSInput::Button(ButtonInput::MoveUp)) => {
                if self.selected_index >= 3 {
                    self.selected_index = self.selected_index - 3;
                }
                SelectorMenuTickResult::Normal
            },
            Some(OSInput::Button(ButtonInput::MoveDown)) => {
                if n >= 3 && self.selected_index < n - 3 {
                    self.selected_index = self.selected_index + 3;
                }
                SelectorMenuTickResult::Normal
            },
            Some(OSInput::Button(ButtonInput::Exe)) => SelectorMenuTickResult::Selected,
            Some(OSInput::Button(ButtonInput::List)) => SelectorMenuTickResult::Cancelled,
            _ => SelectorMenuTickResult::Normal,
        }
    }
}

/// Moving with the arrow keys never takes the hover off a non-empty catalog.
pub proof fn lemma_catalog_move_in_range(selected: int, len: int, key: ButtonInput)
    requires
        0 <= selected < len,
    ensures
        0 <= catalog_move(selected, len, key) < len,
{
}

/// How the arrow keys move the hover over the grid of three columns: up and down keep the
/// column and go one row up or down, staying put in the top row (up) or where the row below has
/// no entry in that column (down); left and right keep the row and go one column over, staying
/// put at the row's edge (and, to the right, at the last entry). Other keys leave the hover where
/// it is.
pub proof fn lemma_catalog_arrow_geometry(selected: int, len: int)
    requires
        0 <= selected < len,
    ensures
        ({
            let up = catalog_move(selected, len, ButtonInput::MoveUp);
            &&& up % 3 == selected % 3
            &&& selected < 3 ==> up == selected
            &&& selected >= 3 ==> up / 3 == selected / 3 - 1
        }),
        ({
            let down = catalog_move(selected, len, ButtonInput::MoveDown);
            &&& down % 3 == selected % 3
            &&& selected + 3 >= len ==> down == selected
            &&& selected + 3 < len ==> down / 3 == selected / 3 + 1 && down < len
        }),
        ({
            let left = catalog_move(selected, len, ButtonInput::MoveLeft);
            &&& left / 3 == selected / 3
            &&& selected % 3 == 0 ==> left == selected
            &&& selected % 3 != 0 ==> left % 3 == selected % 3 - 1
        }),
        ({
            let right = catalog_move(selected, len, ButtonInput::MoveRight);
            &&& right / 3 == selected / 3
            &&& right < len
            &&& (selected % 3 == 2 || selected + 1 == len) ==> right == selected
            &&& (selected % 3 != 2 && selected + 1 < len) ==> right % 3 == selected % 3 + 1
        }),
        forall|key: ButtonInput|
            key != ButtonInput::MoveUp && key != ButtonInput::MoveDown && key != ButtonInput::MoveLeft
                && key != ButtonInput::MoveRight ==> #[trigger] catalog_move(selected, len, key) == selected,
{
}

impl<T> SelectorMenu for Catalog<T> {
    type Item = CatalogItem<T>;

    open spec fn item_list(&self) -> Seq<CatalogItem<T>> {
        self.entries()
    }

    open spec fn hovered(&self) -> int {
        self.hovered_index()
    }

    fn selected_index(&self) -> (r: usize) {
        self.selected_index
    }

    fn items(&self) -> (r: &Vec<CatalogItem<T>>) {
        &self.items
    }

    fn into_items(self) -> (r: Vec<CatalogItem<T>>) {
        self.items
    }
}

/// The top-left corner of a catalog on a display `width` by `height`: 200 by 250 pixels, centred
/// across the display and in the space below the title bar.
pub open spec fn catalog_origin(width: int, height: int) -> (int, int) {
    ((width - 200) / 2, 30 + ((height - 30) - 250) / 2)
}

/// The offset of entry `i` from the catalog's corner: columns 66 pixels apart, overlapping their
/// neighbour by a pixel, and rows 29 pixels apart.
pub open spec fn catalog_cell(i: int) -> (int, int) {
    let column = i % 3;
    (column * 66 - (if column > 0 { 1int } else { 0 }), ((i / 3) * 29) as u16 as i16 as int)
}

/// The cursor and pixels after entry `name` is drawn at `(x, y)` in `column`: a blue box behind it
/// when hovered, a black border, and its name 5 pixels in.
pub open spec fn catalog_entry_drawn<F: AsciiFont>(font: &F, width: int, height: int, state: (int, int, Seq<Colour>), name: Seq<char>, hovered: bool, x: int, y: int, column: int) -> (int, int, Seq<Colour>) {
    let w = 66 + column;
    let lit = if hovered { painted(state, width, height, x, y, w, 30, Colour(0x0E), true) } else { state };
    printed(font, width, painted(lit, width, height, x, y, w, 30, Colour(0x00), false), x + 5, y + 5, name)
}

/// The cursor and pixels after the first `k` entries of `items` are drawn, with `hovered` hovered.
pub open spec fn catalog_entries_drawn<F: AsciiFont, T>(font: &F, width: int, height: int, state: (int, int, Seq<Colour>), items: Seq<CatalogItem<T>>, hovered: int, k: int) -> (int, int, Seq<Colour>)
    decreases k,
{
    if k <= 0 {
        state
    } else {
        let i = k - 1;
        let (sx, sy) = catalog_origin(width, height);
        catalog_entry_drawn(
            font,
            width,
            height,
            catalog_entries_drawn(font, width, height, state, items, hovered, k - 1),
            items[i].name@,
            i == hovered,
            sx + catalog_cell(i).0,
            sy + catalog_cell(i).1,
            i % 3,
        )
    }
}

/// The cursor and pixels after the first `k` of the description's wrapped `lines` are drawn from
/// `(x, y)`, `line_height` apart.
pub open spec fn lines_printed<F: AsciiFont>(font: &F, width: int, state: (int, int, Seq<Colour>), lines: Seq<Seq<char>>, x: int, y: int, line_height: int, k: int) -> (int, int, Seq<Colour>)
    decreases k,
{
    if k <= 0 {
        state
    } else {
        printed(font, width, lines_printed(font, width, state, lines, x, y, line_height, k - 1), x, y + line_height * (k - 1), lines[k - 1])
    }
}

/// How many lines of a description are shown: at most three.
pub open spec fn description_shown(lines: Seq<Seq<char>>) -> int {
    if lines.len() < 3 {
        lines.len() as int
    } else {
        3
    }
}

/// The cursor and pixels after a catalog is drawn on a display `width` by `height` whose cursor
/// and pixels were `state`: a grey panel, the title bar with the catalog's title, the entries,
/// a white border, and a white box at the bottom with up to three lines of the hovered entry's
/// description, wrapped to 190 pixels.
pub open spec fn catalog_screen<F: AsciiFont, T>(
    font: &F,
    width: int,
    height: int,
    state: (int, int, Seq<Colour>),
    title: Seq<char>,
    items: Seq<CatalogItem<T>>,
    hovered: int,
    text_mode: bool,
    shift: bool,
) -> (int, int, Seq<Colour>) {
    let (sx, sy) = catalog_origin(width, height);
    let panel = painted(state, width, height, sx, sy, 200, 250, Colour(0x24), true);
    let titled = title_drawn(font, width, height, panel, title, text_mode, shift);
    let listed = catalog_entries_drawn(font, width, height, titled, items, hovered, items.len() as int);
    let bordered = painted(listed, width, height, sx, sy, 199, 250, Colour(0xFF), false);
    let boxed = painted(bordered, width, height, sx, sy + 180, 200, 70, Colour(0xFF), false);
    let lines = wrap_words(font, 190, words(items[hovered].description@)).2;
    lines_printed(font, width, boxed, lines, sx + 5, sy + 185, font.glyph(65).unwrap().1 as int, description_shown(lines))
}

/// Whether entry `i` of a catalog can be drawn without a fault.
pub open spec fn catalog_entry_ok<F: AsciiFont, T>(font: &F, width: int, height: int, pixels: Seq<Colour>, items: Seq<CatalogItem<T>>, i: int) -> bool {
    let (sx, sy) = catalog_origin(width, height);
    let x = sx + catalog_cell(i).0;
    let y = sy + catalog_cell(i).1;
    &&& (i / 3) * 29 <= u16::MAX
    &&& in_i16_range(x)
    &&& in_i16_range(y)
    &&& clip_ok(x, 66 + i % 3, width)
    &&& clip_ok(y, 30, height)
    &&& in_i16_range(x + 5)
    &&& in_i16_range(y + 5)
    &&& text_ok(font, width, (x + 5, y + 5, pixels), items[i].name@)
}

/// Whether line `k` of a description can be drawn without a fault.
pub open spec fn description_line_ok<F: AsciiFont>(font: &F, width: int, pixels: Seq<Colour>, lines: Seq<Seq<char>>, x: int, y: int, k: int) -> bool {
    let line_y = y + font.glyph(65).unwrap().1 * k;
    in_i16_range(line_y) && text_ok(font, width, (x, line_y, pixels), lines[k])
}

/// Whether a catalog with `items`, hovering `hovered`, can be drawn on a display `width` by
/// `height` whose pixels are `pixels` without a fault.
pub open spec fn catalog_ok<F: AsciiFont, T>(
    font: &F,
    width: int,
    height: int,
    pixels: Seq<Colour>,
    title: Seq<char>,
    items: Seq<CatalogItem<T>>,
    hovered: int,
    text_mode: bool,
    shift: bool,
) -> bool {
    let (sx, sy) = catalog_origin(width, height);
    let description = items[hovered].description@;
    let lines = wrap_words(font, 190, words(description)).2;
    &&& width >= 200
    &&& height >= 280
    &&& 0 <= hovered < items.len()
    &&& clip_ok(sx, 200, width)
    &&& clip_ok(sy, 250, height)
    &&& sy + 185 <= i16::MAX
    &&& clip_ok(sy + 180, 70, height)
    &&& title_ok(font, width, height, pixels, title, text_mode, shift)
    &&& forall|i: int| 0 <= i < items.len() ==> #[trigger] catalog_entry_ok(font, width, height, pixels, items, i)
    &&& font.glyph(65) is Some
    &&& wrap_ok(font, 190, words(description))
    &&& in_i16_range(wrap_words(font, 190, words(description)).1 + font.glyph(65).unwrap().1)
    &&& forall|k: int| 0 <= k < description_shown(lines) ==> #[trigger] description_line_ok(font, width, pixels, lines, sx + 5, sy + 185, k)
}

impl<T> Catalog<T> {
    /// Draws the catalog over what is on the display: a grey panel, the title bar with the title,
    /// the entries in three columns with the hovered one on blue, a white border, and a box with
    /// up to three lines of the hovered entry's description.
    pub fn draw<F: AsciiFont>(&self, os: &mut OperatingSystem, font: &F)
        requires
            old(os).display_sprite.wf(),
            catalog_ok(
                font,
                old(os).display_sprite.width as int,
                old(os).display_sprite.height as int,
                old(os).display_sprite.data@,
                self.title_text(),
                self.entries(),
                self.hovered_index(),
                old(os).text_mode,
                old(os).input_shift,
            ),
        ensures
            final(os).display_sprite.wf(),
            final(os).display_sprite.width == old(os).display_sprite.width,
            final(os).display_sprite.height == old(os).display_sprite.height,
            final(os).display_sprite.text_state() == catalog_screen(
                font,
                old(os).display_sprite.width as int,
                old(os).display_sprite.height as int,
                old(os).display_sprite.text_state(),
                self.title_text(),
                self.entries(),
                self.hovered_index(),
                old(os).text_mode,
                old(os).input_shift,
            ),
            final(os).filesystem == old(os).filesystem,
            final(os).text_mode == old(os).text_mode,
            final(os).input_shift == old(os).input_shift,
            final(os).showing_menu == old(os).showing_menu,
            final(os).active_application_index == old(os).active_application_index,
    {
        let ghost w = os.display_sprite.width as int;
        let ghost h = os.display_sprite.height as int;
        let ghost d0 = os.display_sprite.data@;
        let width = os.display_sprite.width;
        let height = os.display_sprite.height;
        let sx = ((width - 200) / 2) as i16;
        let sy = (30 + ((height - 30) - 250) / 2) as i16;
        os.display_sprite.draw_rect(sx, sy, 200, 250, Colour::grey(), ShapeFill::Filled, 0);
        let ghost s1 = os.display_sprite.text_state();
        proof {
            lemma_text_ok_any_pixels(font, w, 5, 7, d0, s1.2, self.title@);
            if old(os).text_mode {
                lemma_text_ok_any_pixels(font, w, 149, 6, d0, s1.2, "TEXT"@);
                lemma_text_ok_any_pixels(font, w, 153, 6, d0, s1.2, "text"@);
            }
        }
        os.ui_draw_title(font, &self.title);
        let ghost titled = os.display_sprite.text_state();
        let mut column: u16 = 0;
        let mut row: u16 = 0;
        let mut i: usize = 0;
        while i < self.items.len()
            invariant
                i <= self.items@.len(),
                column as int == i % 3,
                row as int == i / 3,
                os.display_sprite.wf(),
                w == os.display_sprite.width,
                h == os.display_sprite.height,
                sx as int == catalog_origin(w, h).0,
                sy as int == catalog_origin(w, h).1,
                d0.len() == w * h,
                forall|j: int| 0 <= j < self.items@.len() ==> #[trigger] catalog_entry_ok(font, w, h, d0, self.items@, j),
                os.display_sprite.text_state() == catalog_entries_drawn(font, w, h, titled, self.items@, self.selected_index as int, i as int),
                os.filesystem == old(os).filesystem,
                os.text_mode == old(os).text_mode,
                os.input_shift == old(os).input_shift,
                os.showing_menu == old(os).showing_menu,
                os.active_application_index == old(os).active_application_index,
            decreases self.items@.len() - i,
        {
            assert(catalog_entry_ok(font, w, h, d0, self.items@, i as int));
            let dx: u16 = column * 66 - if column > 0 { 1 } else { 0 };
            let item_x = sx + dx as i16;
            let item_y = sy + #[verifier::truncate] ((row * 29) as i16);
            assert(item_x as int == sx + catalog_cell(i as int).0);
            assert(item_y as int == sy + catalog_cell(i as int).1);
            let box_width = 66 + column;
            if self.selected_index == i {
                os.display_sprite.draw_rect(item_x, item_y, box_width, 30, Colour::blue(), ShapeFill::Filled, 0);
            }
            os.display_sprite.draw_rect(item_x, item_y, box_width, 30, Colour::black(), ShapeFill::Hollow, 0);
            let ghost d1 = os.display_sprite.data@;
            proof {
                lemma_text_ok_any_pixels(font, w, item_x + 5, item_y + 5, d0, d1, self.items@[i as int].name@);
                lemma_text_drawn_len(font, w, (item_x + 5, item_y + 5, d1), self.items@[i as int].name@);
            }
            os.display_sprite.print_at(font, item_x + 5, item_y + 5, self.items[i].name.as_str());
            if column == 0 || column == 1 {
                column = column + 1;
            } else {
                column = 0;
                row = row + 1;
            }
            i = i + 1;
        }
        os.display_sprite.draw_rect(sx, sy, 199, 250, Colour::white(), ShapeFill::Hollow, 0);
        let panel_y = sy + 180;
        os.display_sprite.draw_rect(sx, panel_y, 200, 70, Colour::white(), ShapeFill::Hollow, 0);
        let ghost boxed = os.display_sprite.text_state();
        let description = &self.items[self.selected_index].description;
        proof {
            lemma_wrapped_lines_nonempty(font, 190, words(description@));
        }
        let (lines, line_height, _) = os.display_sprite.wrap_text(font, description.as_str(), 190);
        let ghost all_lines = wrap_words(font, 190, words(description@)).2;
        proof {
            assert forall|j: int| 0 <= j < description_shown(all_lines) implies #[trigger] description_line_ok(font, w, d0, all_lines, sx + 5, panel_y + 5, j) by {
                assert(description_line_ok(font, w, d0, all_lines, catalog_origin(w, h).0 + 5, catalog_origin(w, h).1 + 185, j));
            }
        }
        let mut k: usize = 0;
        while k < lines.len() && k < 3
            invariant
                k <= description_shown(all_lines),
                all_lines.len() == lines@.len(),
                forall|j: int| 0 <= j < lines@.len() ==> #[trigger] lines@[j]@ == all_lines[j],
                line_height as int == font.glyph(65).unwrap().1,
                font.glyph(65) is Some,
                os.display_sprite.wf(),
                w == os.display_sprite.width,
                h == os.display_sprite.height,
                sx as int == catalog_origin(w, h).0,
                panel_y as int == catalog_origin(w, h).1 + 180,
                d0.len() == w * h,
                forall|j: int| 0 <= j < description_shown(all_lines) ==> #[trigger] description_line_ok(font, w, d0, all_lines, sx + 5, panel_y + 5, j),
                os.display_sprite.text_state() == lines_printed(font, w, boxed, all_lines, sx + 5, panel_y + 5, line_height as int, k as int),
                os.filesystem == old(os).filesystem,
                os.text_mode == old(os).text_mode,
                os.input_shift == old(os).input_shift,
                os.showing_menu == old(os).showing_menu,
                os.active_application_index == old(os).active_application_index,
            decreases lines@.len() - k,
        {
            assert(description_line_ok(font, w, d0, all_lines, sx + 5, panel_y + 5, k as int));
            let ghost d2 = os.display_sprite.data@;
            assert(line_height * k <= 255 * 2) by (nonlinear_arith)
                requires line_height <= 255, k <= 2;
            let line_y = panel_y + 5 + line_height * (k as i16);
            proof {
                lemma_text_ok_any_pixels(font, w, sx + 5, line_y as int, d0, d2, all_lines[k as int]);
                lemma_text_drawn_len(font, w, (sx + 5, line_y as int, d2), all_lines[k as int]);
            }
            os.display_sprite.print_at(font, sx + 5, line_y, lines[k].as_str());
            k = k + 1;
        }
    }
}

} // verus!
