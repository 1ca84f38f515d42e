use vstd::prelude::*;
use crate::input::{ButtonInput, OSInput};
use crate::selector::{SelectorMenu, SelectorMenuItem, SelectorMenuTickResult};
use crate::display::{Colour, ShapeFill};
use crate::font::AsciiFont;
use crate::graphics::{clip_ok, line_ok, line_painted, Sprite};
use crate::os::{painted, printed};
use crate::text::{lemma_text_drawn_len, lemma_text_ok_any_pixels, text_ok};

verus! {

/// An entry of a context menu: a line of text carrying a value, or a divider.
pub enum ContextMenuItem<T> {
    Text { text: String, metadata: T },
    Divider,
}

impl<T> ContextMenuItem<T> {
    /// The height of the entry on screen, in pixels.
    pub fn height(&self) -> (r: u16)
        ensures
            r == if self is Text { 30int } else { 8int },
    {
        match self {
            ContextMenuItem::Text { .. } => 30,
            ContextMenuItem::Divider => 8,
        }
    }

    /// Whether the entry can be hovered and chosen: text can, dividers cannot.
    pub fn selectable(&self) -> (r: bool)
        ensures
            r == self is Text,
    {
        match self {
            ContextMenuItem::Text { .. } => true,
            ContextMenuItem::Divider => false,
        }
    }

    /// A text entry carrying `metadata`, such as the action to run when it is chosen.
    pub fn new_common(text: String, metadata: T) -> (r: Self)
        ensures
            r matches ContextMenuItem::Text { text: t, metadata: m } && t@ == text@ && m == metadata,
    {
        ContextMenuItem::Text { text, metadata }
    }
}

impl<T> SelectorMenuItem for ContextMenuItem<T> {
    type Inner = T;

    /// Text entries carry a value; dividers do not.
    open spec fn has_inner(&self) -> bool {
        self is Text
    }

    open spec fn inner_value(&self) -> T {
        self->metadata
    }

    fn inner(&self) -> (r: &T) {
        match self {
            ContextMenuItem::Text { metadata, .. } => metadata,
            ContextMenuItem::Divider => {
                vstd::pervasive::unreached()
            },
        }
    }

    fn into_inner(self) -> (r: T) {
        match self {
            ContextMenuItem::Text { metadata, .. } => metadata,
            ContextMenuItem::Divider => {
                vstd::pervasive::unreached()
            },
        }
    }
}

/// The index `steps` entries before `start`, cycling from the first entry to the last, for
/// `steps <= len`.
pub open spec fn back(start: int, steps: int, len: int) -> int {
    if steps <= start {
        start - steps
    } else {
        start - steps + len
    }
}

/// The index `steps` entries after `start`, cycling from the last entry to the first, for
/// `steps <= len`.
pub open spec fn forward(start: int, steps: int, len: int) -> int {
    if start + steps < len {
        start + steps
    } else {
        start + steps - len
    }
}

/// The index `steps` entries from `start`, backwards when `up`.
pub open spec fn step(start: int, steps: int, len: int, up: bool) -> int {
    if up {
        back(start, steps, len)
    } else {
        forward(start, steps, len)
    }
}

/// Whether `items` has an entry that can be hovered.
pub open spec fn any_selectable<T>(items: Seq<ContextMenuItem<T>>) -> bool {
    exists|j: int| 0 <= j < items.len() && #[trigger] items[j] is Text
}

/// Whether `target` is the first selectable entry met when stepping from `start` with `step`,
/// taking at least one step.
pub open spec fn first_selectable<T>(items: Seq<ContextMenuItem<T>>, start: int, target: int, up: bool) -> bool {
    exists|k: int|
        1 <= k <= items.len() && target == step(start, k, items.len() as int, up)
            && items[target] is Text && forall|k2: int|
            1 <= k2 < k ==> !(#[trigger] items[step(start, k2, items.len() as int, up)] is Text)
}

/// Moving down hovers the next selectable entry after `start`, wrapping from the last entry to
/// the first: every entry passed over on the way is a divider. So where every entry is
/// selectable, moving down goes to the entry below, and from the last entry to the first.
pub proof fn lemma_move_down_hovers_next_selectable<T>(items: Seq<ContextMenuItem<T>>, start: int, target: int)
    requires
        0 <= start < items.len(),
        first_selectable(items, start, target, false),
    ensures
        0 <= target < items.len(),
        items[target] is Text,
        start < target ==> forall|i: int| start < i < target ==> !(#[trigger] items[i] is Text),
        target <= start ==> forall|i: int| (start < i < items.len() || 0 <= i < target) ==> !(#[trigger] items[i] is Text),
        (forall|j: int| 0 <= j < items.len() ==> #[trigger] items[j] is Text) ==> target == if start + 1 < items.len() {
            start + 1
        } else {
            0
        },
{
    let len = items.len() as int;
    let k = choose|k: int|
        1 <= k <= items.len() && target == step(start, k, items.len() as int, false)
            && items[target] is Text && forall|k2: int|
            1 <= k2 < k ==> !(#[trigger] items[step(start, k2, items.len() as int, false)] is Text);
    if start < target {
        assert forall|i: int| start < i < target implies !(#[trigger] items[i] is Text) by {
            assert(step(start, i - start, len, false) == i);
        }
    } else {
        assert forall|i: int| (start < i < items.len() || 0 <= i < target) implies !(#[trigger] items[i] is Text) by {
            if start < i {
                assert(step(start, i - start, len, false) == i);
            } else {
                assert(step(start, i - start + len, len, false) == i);
            }
        }
    }
    if forall|j: int| 0 <= j < items.len() ==> #[trigger] items[j] is Text {
        if start + 1 < len {
            assert(items[start + 1] is Text);
        } else {
            assert(items[0] is Text);
        }
    }
}

/// Moving up hovers the nearest selectable entry before `start`, wrapping from the first entry to
/// the last: every entry passed over on the way is a divider. So where every entry is
/// selectable, moving up goes to the entry above, and from the first entry to the last.
pub proof fn lemma_move_up_hovers_previous_selectable<T>(items: Seq<ContextMenuItem<T>>, start: int, target: int)
    requires
        0 <= start < items.len(),
        first_selectable(items, start, target, true),
    ensures
        0 <= target < items.len(),
        items[target] is Text,
        target < start ==> forall|i: int| target < i < start ==> !(#[trigger] items[i] is Text),
        start <= target ==> forall|i: int| (0 <= i < start || target < i < items.len()) ==> !(#[trigger] items[i] is Text),
        (forall|j: int| 0 <= j < items.len() ==> #[trigger] items[j] is Text) ==> target == if start > 0 {
            start - 1
        } else {
            items.len() - 1
        },
{
    let len = items.len() as int;
    let k = choose|k: int|
        1 <= k <= items.len() && target == step(start, k, items.len() as int, true)
            && items[target] is Text && forall|k2: int|
            1 <= k2 < k ==> !(#[trigger] items[step(start, k2, items.len() as int, true)] is Text);
    if target < start {
        assert forall|i: int| target < i < start implies !(#[trigger] items[i] is Text) by {
            assert(step(start, start - i, len, true) == i);
        }
    } else {
        assert forall|i: int| (0 <= i < start || target < i < items.len()) implies !(#[trigger] items[i] is Text) by {
            if i < start {
                assert(step(start, start - i, len, true) == i);
            } else {
                assert(step(start, start - i + len, len, true) == i);
            }
        }
    }
    if forall|j: int| 0 <= j < items.len() ==> #[trigger] items[j] is Text {
        if start > 0 {
            assert(items[start - 1] is Text);
        } else {
            assert(items[len - 1] is Text);
        }
    }
}

/// A pop-up menu of entries, of which one selectable entry is hovered; it can be closeable with
/// the LIST key.
pub struct ContextMenu<T> {
    items: Vec<ContextMenuItem<T>>,
    selected_index: usize,
    closeable: bool,
}

impl<T> ContextMenu<T> {
    /// The menu's entries.
    pub closed spec fn entries(&self) -> Seq<ContextMenuItem<T>> {
        self.items@
    }

    /// The index of the hovered entry.
    pub closed spec fn hovered_index(&self) -> int {
        self.selected_index as int
    }

    /// Whether the LIST key dismisses the menu.
    pub closed spec fn is_closeable(&self) -> bool {
        self.closeable
    }

    /// A menu over `items` hovering the first entry.
    pub fn new(items: Vec<ContextMenuItem<T>>, closeable: bool) -> (m: Self)
        ensures
            m.entries() == items@,
            m.hovered_index() == 0,
            m.is_closeable() == closeable,
    {
        ContextMenu { items, selected_index: 0, closeable }
    }

    /// The height of all entries together, in pixels.
    pub fn total_height(&self) -> (r: u32)
        requires
            self.entries().len() <= 1000,
        ensures
            r == total_height_of(self.entries()),
    {
        let mut sum: u32 = 0;
        let mut i: usize = 0;
        while i < self.items.len()
            invariant
                i <= self.items@.len() <= 1000,
                sum == total_height_of(self.items@.subrange(0, i as int)),
                sum <= 30 * i,
            decreases self.items@.len() - i,
        {
            assert(self.items@.subrange(0, i + 1).drop_last() == self.items@.subrange(0, i as int));
            sum = sum + self.items[i].height() as u32;
            i = i + 1;
        }
        assert(self.items@.subrange(0, i as int) == self.items@);
        sum
    }

    /// Handles one input: the arrow keys move to the previous or next selectable entry, cycling
    /// round the ends and skipping dividers; EXE chooses the hovered entry; LIST dismisses a
    /// closeable menu. Moving needs a selectable entry.
    pub fn handle_input(&mut self, input: Option<OSInput>) -> (r: SelectorMenuTickResult)
        requires
            old(self).hovered_index() < old(self).entries().len(),
            input == Some(OSInput::Button(ButtonInput::MoveUp)) || input == Some(OSInput::Button(ButtonInput::MoveDown))
                ==> any_selectable(old(self).entries()),
        ensures
            final(self).entries() == old(self).entries(),
            final(self).is_closeable() == old(self).is_closeable(),
            final(self).hovered_index() < final(self).entries().len(),
            r == match input {
                Some(OSInput::Button(ButtonInput::Exe)) => SelectorMenuTickResult::Selected,
                Some(OSInput::Button(ButtonInput::List)) => if old(self).is_closeable() {
                    SelectorMenuTickResult::Cancelled
                } else {
                    SelectorMenuTickResult::Normal
                },
                _ => SelectorMenuTickResult::Normal,
            },
            input == Some(OSInput::Button(ButtonInput::MoveUp)) ==> first_selectable(
                old(self).entries(),
                old(self).hovered_index(),
                final(self).hovered_index(),
                true,
            ),
            input == Some(OSInput::Button(ButtonInput::MoveDown)) ==> first_selectable(
                old(self).entries(),
                old(self).hovered_index(),
                final(self).hovered_index(),
                false,
            ),
            input != Some(OSInput::Button(ButtonInput::MoveUp)) && input != Some(OSInput::Button(ButtonInput::MoveDown))
                ==> final(self).hovered_index() == old(self).hovered_index(),
    {
        match input {
            Some(OSInput::Button(ButtonInput::MoveUp)) => {
                self.step_to_selectable(true);
                SelectorMenuTickResult::Normal
            },
            Some(OSInput::Button(ButtonInput::MoveDown)) => {
                self.step_to_selectable(false);
                SelectorMenuTickResult::Normal
            },
            Some(OSInput::Button(ButtonInput::Exe)) => SelectorMenuTickResult::Selected,
            Some(OSInput::Button(ButtonInput::List)) => {
                if self.closeable {
                    SelectorMenuTickResult::Cancelled
                } else {
                    SelectorMenuTickResult::Normal
                }
            },
            _ => SelectorMenuTickResult::Normal,
        }
    }

    /// Steps backwards (`up`) or forwards until a selectable entry is hovered.
    fn step_to_selectable(&mut self, up: bool)
        requires
            old(self).selected_index < old(self).items@.len(),
            any_selectable(old(self).items@),
        ensures
            final(self).items@ == old(self).items@,
            final(self).closeable == old(self).closeable,
            final(self).selected_index < final(self).items@.len(),
            first_selectable(old(self).items@, old(self).selected_index as int, final(self).selected_index as int, up),
    {
        let ghost items = self.items@;
        let ghost len = items.len() as int;
        let ghost start = self.selected_index as int;
        let ghost j = choose|j: int| 0 <= j < items.len() && #[trigger] items[j] is Text;
        let ghost kj = if up {
            if j < start { start - j } else { start - j + len }
        } else {
            if start < j { j - start } else { j - start + len }
        };
        assert(items[step(start, kj, len, up)] is Text);
        let n = self.items.len();
        let ghost mut steps: int = 0;
        loop
            invariant_except_break
                self.items@ == items,
                len == n,
                len == items.len(),
                self.closeable == old(self).closeable,
                0 <= steps < kj,
                1 <= kj <= len,
                0 <= start < len,
                self.selected_index < len,
                items[step(start, kj, len, up)] is Text,
                self.selected_index == step(start, steps, len, up),
                forall|k2: int|
                    1 <= k2 <= steps ==> !(#[trigger] items[step(start, k2, len, up)] is Text),
            ensures
                self.items@ == items,
                self.closeable == old(self).closeable,
                self.selected_index < len,
                first_selectable(items, start, self.selected_index as int, up),
            decreases kj - steps,
        {
            if up {
                if self.selected_index == 0 {
                    self.selected_index = n - 1;
                } else {
                    self.selected_index = self.selected_index - 1;
                }
            } else {
                let ghost prev = self.selected_index as int;
                self.selected_index = (self.selected_index + 1) % n;
                proof {
                    if prev + 1 < n {
                        vstd::arithmetic::div_mod::lemma_small_mod((prev + 1) as nat, n as nat);
                    } else {
                        assert((n as int) % (n as int) == 0) by (nonlinear_arith)
                            requires n > 0;
                    }
                }
            }
            proof {
                steps = steps + 1;
                assert(self.selected_index == step(start, steps, len, up));
            }
            if self.items[self.selected_index].selectable() {
                assert(first_selectable(items, start, self.selected_index as int, up)) by {
                    assert(1 <= steps <= items.len());
                }
                break;
            }
        }
    }
}

/// The height of a list of entries, in pixels.
pub open spec fn total_height_of<T>(items: Seq<ContextMenuItem<T>>) -> int
    decreases items.len(),
{
    if items.len() == 0 {
        0
    } else {
        total_height_of(items.drop_last()) + if items.last() is Text { 30int } else { 8int }
    }
}

impl<T> SelectorMenu for ContextMenu<T> {
    type Item = ContextMenuItem<T>;

    open spec fn item_list(&self) -> Seq<ContextMenuItem<T>> {
        self.entries()
    }

    open spec fn hovered(&self) -> int {
        self.hovered_index()
    }

    fn selected_index(&self) -> (r: usize) {
        self.selected_index
    }

    fn items(&self) -> (r: &Vec<ContextMenuItem<T>>) {
        &self.items
    }

    fn into_items(self) -> (r: Vec<ContextMenuItem<T>>) {
        self.items
    }
}

/// The width of the display that context menus are laid out for.
pub const DISPLAY_WIDTH: u16 = 240;

/// The height of the display that context menus are laid out for.
pub const DISPLAY_HEIGHT: u16 = 320;

/// The height of an entry, in pixels.
pub open spec fn entry_height<T>(item: ContextMenuItem<T>) -> int {
    if item is Text {
        30
    } else {
        8
    }
}

/// The cursor and pixels after an entry is drawn with its top at `y`: text 10 pixels in and 4
/// down, or a white divider line across the menu 4 pixels down.
pub open spec fn item_drawn<F: AsciiFont, T>(font: &F, width: int, state: (int, int, Seq<Colour>), item: ContextMenuItem<T>, y: int) -> (int, int, Seq<Colour>) {
    match item {
        ContextMenuItem::Text { text, .. } => printed(font, width, state, 10, y + 4, text@),
        ContextMenuItem::Divider => (state.0, state.1, line_painted(state.2, width, 5, y + 4, DISPLAY_WIDTH - 5, y + 4, Colour(0xFF))),
    }
}

/// Whether an entry can be drawn with its top at `y` on pixels `pixels` without a fault.
pub open spec fn item_ok<F: AsciiFont, T>(font: &F, width: int, pixels: Seq<Colour>, item: ContextMenuItem<T>, y: int) -> bool {
    &&& y + 4 <= i16::MAX
    &&& item matches ContextMenuItem::Text { text, .. } ==> text_ok(font, width, (10, y + 4, pixels), text@)
    &&& item is Divider ==> line_ok(pixels.len() as int, width, 5, y + 4, DISPLAY_WIDTH - 5, y + 4)
}

impl<T> ContextMenuItem<T> {
    /// Draws the entry with its top at `y`: text 10 pixels in and 4 down, or a white divider line
    /// across the menu.
    pub fn draw<F: AsciiFont>(&self, sprite: &mut Sprite, font: &F, y: i16)
        requires
            item_ok(font, old(sprite).width as int, old(sprite).data@, *self, y as int),
        ensures
            final(sprite).width == old(sprite).width,
            final(sprite).height == old(sprite).height,
            final(sprite).text_state() == item_drawn(font, old(sprite).width as int, old(sprite).text_state(), *self, y as int),
            final(sprite).data@.len() == old(sprite).data@.len(),
    {
        proof {
            if let ContextMenuItem::Text { text, .. } = self {
                lemma_text_drawn_len(font, old(sprite).width as int, (10, y + 4, old(sprite).data@), text@);
            }
        }
        match self {
            ContextMenuItem::Text { text, .. } => sprite.print_at(font, 10, y + 4, text.as_str()),
            ContextMenuItem::Divider => sprite.draw_line(5, y + 4, DISPLAY_WIDTH as i16 - 5, y + 4, Colour::white()),
        }
    }
}

/// The top of a context menu whose entries are `total` pixels high: it rises from 20 pixels above
/// the bottom of the display.
pub open spec fn menu_top(total: int) -> int {
    DISPLAY_HEIGHT - total - 20
}

/// The cursor and pixels after the first `k` entries are drawn from `y` down, the hovered one on
/// a blue bar.
pub open spec fn items_drawn<F: AsciiFont, T>(font: &F, width: int, height: int, state: (int, int, Seq<Colour>), items: Seq<ContextMenuItem<T>>, hovered: int, y: int, k: int) -> (int, int, Seq<Colour>)
    decreases k,
{
    if k <= 0 {
        state
    } else {
        let i = k - 1;
        let before = items_drawn(font, width, height, state, items, hovered, y, k - 1);
        let top = y + total_height_of(items.subrange(0, i));
        let lit = if i == hovered { painted(before, width, height, 5, top, DISPLAY_WIDTH - 10, entry_height(items[i]), Colour(0x0E), true) } else { before };
        item_drawn(font, width, lit, items[i], top)
    }
}

/// The cursor and pixels after a context menu is drawn on a display `width` by `height`: a grey
/// panel with a white border from its top to below the display, and the entries 10 pixels down
/// from its top.
pub open spec fn context_menu_drawn<F: AsciiFont, T>(font: &F, width: int, height: int, state: (int, int, Seq<Colour>), items: Seq<ContextMenuItem<T>>, hovered: int) -> (int, int, Seq<Colour>) {
    let top = menu_top(total_height_of(items));
    let panel = painted(state, width, height, 0, top, DISPLAY_WIDTH as int, 400, Colour(0x24), true);
    let framed = painted(panel, width, height, 0, top, DISPLAY_WIDTH as int, 400, Colour(0xFF), false);
    items_drawn(font, width, height, framed, items, hovered, top + 10, items.len() as int)
}

/// Whether entry `i` can be drawn without a fault.
pub open spec fn menu_item_ok<F: AsciiFont, T>(font: &F, width: int, height: int, pixels: Seq<Colour>, items: Seq<ContextMenuItem<T>>, hovered: int, i: int) -> bool {
    let top = menu_top(total_height_of(items)) + 10 + total_height_of(items.subrange(0, i));
    &&& item_ok(font, width, pixels, items[i], top)
    &&& i == hovered ==> clip_ok(5, DISPLAY_WIDTH - 10, width) && clip_ok(top, entry_height(items[i]), height)
}

proof fn lemma_total_height_prefix<T>(items: Seq<ContextMenuItem<T>>, i: int)
    requires
        0 <= i <= items.len(),
    ensures
        total_height_of(items.subrange(0, i)) <= total_height_of(items),
        0 <= total_height_of(items.subrange(0, i)),
        i < items.len() ==> total_height_of(items.subrange(0, i + 1)) == total_height_of(items.subrange(0, i)) + entry_height(items[i]),
    decreases items.len() - i,
{
    if i < items.len() {
        lemma_total_height_prefix(items, i + 1);
        assert(items.subrange(0, i + 1).drop_last() =~= items.subrange(0, i));
    } else {
        assert(items.subrange(0, i) =~= items);
    }
    if i == 0 {
        assert(items.subrange(0, 0).len() == 0);
    } else {
        lemma_total_height_nonneg(items.subrange(0, i));
    }
}

proof fn lemma_total_height_nonneg<T>(items: Seq<ContextMenuItem<T>>)
    ensures
        0 <= 8 * items.len() <= total_height_of(items) <= 30 * items.len(),
    decreases items.len(),
{
    if items.len() > 0 {
        lemma_total_height_nonneg(items.drop_last());
    }
}

impl<T> ContextMenu<T> {
    /// Draws the menu: a grey panel with a white border rising from 20 pixels above the bottom of
    /// the display by the height of the entries, and the entries in it, the hovered one on a blue
    /// bar.
    pub fn draw<F: AsciiFont>(&self, sprite: &mut Sprite, font: &F)
        requires
            old(sprite).wf(),
            total_height_of(self.entries()) <= 300,
            menu_top(total_height_of(self.entries())) <= old(sprite).height,
            forall|i: int| 0 <= i < self.entries().len() ==> #[trigger] menu_item_ok(
                font,
                old(sprite).width as int,
                old(sprite).height as int,
                old(sprite).data@,
                self.entries(),
                self.hovered_index(),
                i,
            ),
        ensures
            final(sprite).wf(),
            final(sprite).width == old(sprite).width,
            final(sprite).height == old(sprite).height,
            final(sprite).text_state() == context_menu_drawn(
                font,
                old(sprite).width as int,
                old(sprite).height as int,
                old(sprite).text_state(),
                self.entries(),
                self.hovered_index(),
            ),
    {
        let ghost w = sprite.width as int;
        let ghost h = sprite.height as int;
        let ghost d0 = sprite.data@;
        proof {
            lemma_total_height_nonneg(self.items@);
            assert forall|j: int| 0 <= j < self.items@.len() implies #[trigger] menu_item_ok(font, w, h, d0, self.items@, self.selected_index as int, j) by {
                assert(menu_item_ok(font, w, h, d0, self.entries(), self.hovered_index(), j));
            }
        }
        let total = self.total_height();
        let mut y = (DISPLAY_HEIGHT as u32 - total - 20) as i16;
        sprite.draw_rect(0, y, DISPLAY_WIDTH, 400, Colour::grey(), ShapeFill::Filled, 10);
        sprite.draw_rect(0, y, DISPLAY_WIDTH, 400, Colour::white(), ShapeFill::Hollow, 10);
        let ghost framed = sprite.text_state();
        y = y + 10;
        let ghost start = y as int;
        let mut i: usize = 0;
        while i < self.items.len()
            invariant
                i <= self.items@.len(),
                total == total_height_of(self.items@),
                total <= 300,
                start == menu_top(total as int) + 10,
                y as int == start + total_height_of(self.items@.subrange(0, i as int)),
                sprite.wf(),
                w == sprite.width,
                h == sprite.height,
                d0.len() == w * h,
                forall|j: int| 0 <= j < self.items@.len() ==> #[trigger] menu_item_ok(font, w, h, d0, self.items@, self.selected_index as int, j),
                sprite.text_state() == items_drawn(font, w, h, framed, self.items@, self.selected_index as int, start, i as int),
            decreases self.items@.len() - i,
        {
            proof {
                lemma_total_height_prefix(self.items@, i as int);
            }
            assert(menu_item_ok(font, w, h, d0, self.items@, self.selected_index as int, i as int));
            let height = self.items[i].height();
            if i == self.selected_index {
                sprite.draw_rect(5, y, DISPLAY_WIDTH - 5 * 2, height, Colour::blue(), ShapeFill::Filled, 7);
            }
            proof {
                if let ContextMenuItem::Text { text, .. } = self.items@[i as int] {
                    lemma_text_ok_any_pixels(font, w, 10, y + 4, d0, sprite.data@, text@);
                    lemma_text_drawn_len(font, w, (10, y + 4, sprite.data@), text@);
                }
            }
            self.items[i].draw(sprite, font, y);
            y = y + height as i16;
            i = i + 1;
        }
    }
}

} // verus!
