use vstd::prelude::*;
use crate::input::{ButtonInput, OSInput};
use crate::os::TITLE_BAR_HEIGHT;
use crate::sprite_cache::SpriteCache;
use crate::display::{Colour, ShapeFill};
use crate::graphics::{blit, blit_pixel_ok, clip_ok, line_ok, line_painted, rect_painted, saturate_i16, Sprite};

verus! {

/// What is selected in the calculator's history: the expression or the result of the
/// calculation at an index.
#[derive(PartialEq, Eq, Copy, Clone, Debug, Structural)]
pub enum Selection {
    Expression(usize),
    Result(usize),
}

impl Selection {
    /// The index of the selected calculation.
    pub fn index(&self) -> (r: usize)
        ensures
            r == match *self {
                Selection::Expression(i) => i,
                Selection::Result(i) => i,
            },
    {
        match *self {
            Selection::Expression(i) => i,
            Selection::Result(i) => i,
        }
    }

    /// The selection one step further down the history: an expression's result, or the next
    /// calculation's expression.
    pub fn down(self) -> (r: Selection)
        requires
            self matches Selection::Result(i) ==> i < usize::MAX,
        ensures
            r == selection_down(self),
    {
        match self {
            Selection::Expression(i) => Selection::Result(i),
            Selection::Result(i) => Selection::Expression(i + 1),
        }
    }

    /// The selection one step further up the history: the previous calculation's result, or a
    /// result's expression.
    pub fn up(self) -> (r: Selection)
        requires
            self matches Selection::Expression(i) ==> i > 0,
        ensures
            r == selection_up(self),
    {
        match self {
            Selection::Expression(i) => Selection::Result(i - 1),
            Selection::Result(i) => Selection::Expression(i),
        }
    }
}

/// The selection one step down, as a value.
pub open spec fn selection_down(s: Selection) -> Selection {
    match s {
        Selection::Expression(i) => Selection::Result(i),
        Selection::Result(i) => Selection::Expression((i + 1) as usize),
    }
}

/// The selection one step up, as a value.
pub open spec fn selection_up(s: Selection) -> Selection {
    match s {
        Selection::Expression(i) => Selection::Result((i - 1) as usize),
        Selection::Result(i) => Selection::Expression(i),
    }
}

/// Moving down and then up returns to the same selection.
pub proof fn lemma_down_then_up(s: Selection)
    requires
        s matches Selection::Result(i) ==> i < usize::MAX,
    ensures
        selection_up(selection_down(s)) == s,
{
}

/// Moving up and then down returns to the same selection.
pub proof fn lemma_up_then_down(s: Selection)
    requires
        s matches Selection::Expression(i) ==> i > 0,
    ensures
        selection_down(selection_up(s)) == s,
{
}


/// The space around calculations, results and the lines between them, in pixels.
pub const PADDING: u16 = 10;

/// The width of the display that results are laid out for.
pub const CALCULATOR_DISPLAY_WIDTH: u16 = 240;

/// How far a result is scrolled by one press of left or right, in pixels.
pub const RESULT_SCROLL_STEP: u16 = 10;

/// What a key does in the calculator, before the expression being edited sees it.
#[derive(PartialEq, Eq, Clone, Copy, Debug, Structural)]
pub enum CalculatorStep {
    /// Execute: the calculation being edited is saved and a new, empty one is started.
    NewCalculation,
    /// List: the menu that offers to clear the history opens.
    OpenHistoryMenu,
    /// Left or right while a result is selected: the result scrolls.
    ScrollResult,
    /// Any other key goes to the expression being edited.
    Edit,
}

/// Where a calculation goes when the history is laid out from the bottom of the display up.
#[derive(PartialEq, Eq, Clone, Copy, Debug, Structural)]
pub enum Placement {
    /// The selected calculation does not fit on the display: the history has been scrolled and
    /// must be laid out again.
    Rescrolled,
    /// The calculation covers the rows from `lowest_y` down to the one above the previous
    /// calculation. `rest_clipped`: it reaches above the bottom of the title bar, so all
    /// calculations above it are off the screen. `below_screen`: it starts below the display.
    Placed { lowest_y: i16, rest_clipped: bool, below_screen: bool },
}

/// The top of a calculation whose expression is `calculation_height` and result `result_height`
/// pixels high, laid out so that its bottom edge meets `next_highest_y`: the total height is
/// taken as an `i16`.
pub open spec fn lowest_y_of(next_highest_y: int, calculation_height: int, result_height: int) -> int {
    next_highest_y - ((calculation_height + PADDING + result_height) as u16 as i16)
}

/// The calculator's view of its history: how many calculations there are, which part of which
/// is selected, the drawings of the others, where the history is drawn from and how far the
/// selected result is scrolled. The calculations themselves are expressions of the expression
/// engine and are kept beside it.
pub struct CalculatorApplication {
    pub calculation_count: usize,
    pub selection: Selection,
    pub sprite_cache: SpriteCache,
    /// The row that the bottom calculation ends at; the history is drawn up from there.
    pub starting_y: i16,
    /// How far the selected result is scrolled to the left, in pixels.
    pub result_scroll_x: u16,
}

impl CalculatorApplication {
    /// The selection lies within the history, and the cache has a slot per calculation.
    pub open spec fn wf(&self) -> bool {
        &&& selection_index(self.selection) < self.calculation_count
        &&& self.sprite_cache.slots().len() == self.calculation_count
    }

    /// The calculator over `loaded` calculations read from storage, the last of them empty or not
    /// (`last_is_empty` is `None` when there are none), on a display `display_height` pixels
    /// high. An empty calculation is added at the end unless the last one is already empty, and
    /// it is selected; nothing is scrolled and every cache slot is blank.
    pub fn new(loaded: usize, last_is_empty: Option<bool>, display_height: u16) -> (r: Self)
        requires
            (loaded == 0) == (last_is_empty is None),
            loaded < usize::MAX,
        ensures
            r.wf(),
            r.calculation_count == if last_is_empty == Some(true) { loaded as int } else { loaded + 1 },
            r.selection == Selection::Expression((r.calculation_count - 1) as usize),
            r.starting_y == display_height as i16,
            r.result_scroll_x == 0,
            forall|i: int| 0 <= i < r.calculation_count ==> #[trigger] r.sprite_cache.slots()[i] is Blank,
    {
        let needs_empty_adding = match last_is_empty {
            Some(empty) => !empty,
            None => true,
        };
        let count = if needs_empty_adding { loaded + 1 } else { loaded };
        let mut sprite_cache = SpriteCache::new();
        sprite_cache.clear(count);
        CalculatorApplication {
            calculation_count: count,
            selection: Selection::Expression(count - 1),
            sprite_cache,
            starting_y: #[verifier::truncate] (display_height as i16),
            result_scroll_x: 0,
        }
    }

    /// What `input` does: execute starts a new calculation, list opens the history menu, left and
    /// right scroll a selected result, and every other key edits the expression.
    pub fn step_for(&self, input: OSInput) -> (r: CalculatorStep)
        ensures
            r == if input == OSInput::Button(ButtonInput::Exe) {
                CalculatorStep::NewCalculation
            } else if input == OSInput::Button(ButtonInput::List) {
                CalculatorStep::OpenHistoryMenu
            } else if self.selection is Result && (input == OSInput::Button(ButtonInput::MoveLeft)
                || input == OSInput::Button(ButtonInput::MoveRight)) {
                CalculatorStep::ScrollResult
            } else {
                CalculatorStep::Edit
            },
    {
        if input == OSInput::Button(ButtonInput::Exe) {
            CalculatorStep::NewCalculation
        } else if input == OSInput::Button(ButtonInput::List) {
            CalculatorStep::OpenHistoryMenu
        } else if matches!(self.selection, Selection::Result(_)) && (input == OSInput::Button(ButtonInput::MoveLeft)
            || input == OSInput::Button(ButtonInput::MoveRight)) {
            CalculatorStep::ScrollResult
        } else {
            CalculatorStep::Edit
        }
    }

    /// Starts a new, empty calculation at the end of the history (the caller adds it beside the
    /// expression engine) and selects it: the history scrolls back to the bottom of a display
    /// `display_height` pixels high and every cache slot is blank. Returns what was selected, for
    /// the caller to save.
    pub fn start_new_calculation(&mut self, display_height: u16) -> (previous: Selection)
        requires
            old(self).calculation_count < usize::MAX,
        ensures
            previous == old(self).selection,
            final(self).calculation_count == old(self).calculation_count + 1,
            final(self).selection == Selection::Expression(old(self).calculation_count),
            final(self).starting_y == display_height as i16,
            final(self).result_scroll_x == 0,
            final(self).wf(),
            forall|i: int| 0 <= i < final(self).calculation_count ==> #[trigger] final(self).sprite_cache.slots()[i] is Blank,
    {
        let previous = self.selection;
        self.calculation_count = self.calculation_count + 1;
        self.selection = Selection::Expression(self.calculation_count - 1);
        self.starting_y = #[verifier::truncate] (display_height as i16);
        self.result_scroll_x = 0;
        self.sprite_cache.clear(self.calculation_count);
        previous
    }

    /// Scrolls the selected result: left by up to `RESULT_SCROLL_STEP` pixels, never past its
    /// start; right by that much when the result, `selected_result_width` pixels wide, is wider
    /// than the space for it, never past its end. The width must be known to scroll right, and a
    /// result wider than that space but narrower than the display cannot be scrolled right (the
    /// end it scrolls to is computed from the display's width first).
    pub fn scroll_result(&mut self, right: bool, selected_result_width: Option<u16>)
        requires
            right ==> selected_result_width is Some,
            right ==> old(self).result_scroll_x + RESULT_SCROLL_STEP <= u16::MAX,
            right && selected_result_width.unwrap() > CALCULATOR_DISPLAY_WIDTH - 2 * PADDING
                ==> selected_result_width.unwrap() >= CALCULATOR_DISPLAY_WIDTH,
        ensures
            final(self).result_scroll_x == if !right {
                old(self).result_scroll_x - if old(self).result_scroll_x < RESULT_SCROLL_STEP { old(self).result_scroll_x as int } else { RESULT_SCROLL_STEP as int }
            } else if selected_result_width.unwrap() > CALCULATOR_DISPLAY_WIDTH - 2 * PADDING {
                if old(self).result_scroll_x + RESULT_SCROLL_STEP > selected_result_width.unwrap() - (CALCULATOR_DISPLAY_WIDTH - 2 * PADDING) {
                    selected_result_width.unwrap() - (CALCULATOR_DISPLAY_WIDTH - 2 * PADDING)
                } else {
                    old(self).result_scroll_x + RESULT_SCROLL_STEP
                }
            } else {
                old(self).result_scroll_x as int
            },
            final(self).selection == old(self).selection,
            final(self).calculation_count == old(self).calculation_count,
            final(self).starting_y == old(self).starting_y,
            final(self).sprite_cache == old(self).sprite_cache,
    {
        if !right {
            let step = if self.result_scroll_x < RESULT_SCROLL_STEP { self.result_scroll_x } else { RESULT_SCROLL_STEP };
            self.result_scroll_x = self.result_scroll_x - step;
        } else {
            let width = selected_result_width.unwrap();
            if width > CALCULATOR_DISPLAY_WIDTH - PADDING * 2 {
                self.result_scroll_x = self.result_scroll_x + RESULT_SCROLL_STEP;
                let max_scroll = width - CALCULATOR_DISPLAY_WIDTH + PADDING * 2;
                if self.result_scroll_x > max_scroll {
                    self.result_scroll_x = max_scroll;
                }
            }
        }
    }

    /// The cursor moved out of the top or bottom of the expression being edited: the selection
    /// moves one step up or down the history, unless it is already at that end (the first
    /// expression, or the last result). Moving down resets the result's scroll. When it moves,
    /// every cache slot becomes blank and what was selected is returned, for the caller to save.
    pub fn move_out(&mut self, up: bool) -> (previous: Option<Selection>)
        requires
            old(self).wf(),
        ensures
            final(self).wf(),
            final(self).calculation_count == old(self).calculation_count,
            final(self).starting_y == old(self).starting_y,
            up ==> (previous is Some <==> old(self).selection != Selection::Expression(0)),
            !up ==> (previous is Some <==> old(self).selection != Selection::Result((old(self).calculation_count - 1) as usize)),
            previous is Some ==> {
                &&& previous == Some(old(self).selection)
                &&& final(self).selection == if up { selection_up(old(self).selection) } else { selection_down(old(self).selection) }
                &&& final(self).result_scroll_x == if up { old(self).result_scroll_x } else { 0 }
                &&& forall|i: int| 0 <= i < final(self).calculation_count ==> #[trigger] final(self).sprite_cache.slots()[i] is Blank
            },
            previous is None ==> final(self).selection == old(self).selection && final(self).result_scroll_x == old(self).result_scroll_x
                && final(self).sprite_cache == old(self).sprite_cache,
    {
        let previous = self.selection;
        if up {
            if self.selection == Selection::Expression(0) {
                return None;
            }
            self.selection = self.selection.up();
        } else {
            if self.selection == Selection::Result(self.calculation_count - 1) {
                return None;
            }
            self.selection = self.selection.down();
            self.result_scroll_x = 0;
        }
        self.sprite_cache.clear(self.calculation_count);
        Some(previous)
    }

    /// Lays out the calculation at `index`, whose expression is `calculation_height` and result
    /// `result_height` pixels high, with its bottom edge at `next_highest_y`, on a display
    /// `display_height` pixels high. If it is the selected one and reaches above the bottom of
    /// the title bar, the history scrolls down by as much as it sticks out above the title bar;
    /// if it is the selected one and its bottom edge is below the display, the history scrolls up
    /// by as much. Either way it must be laid out again.
    pub fn place(&mut self, index: usize, next_highest_y: i16, calculation_height: u16, result_height: u16, display_height: u16) -> (r: Placement)
        requires
            calculation_height + PADDING + result_height <= u16::MAX,
            i16::MIN <= lowest_y_of(next_highest_y as int, calculation_height as int, result_height as int),
            lowest_y_of(next_highest_y as int, calculation_height as int, result_height as int) <= i16::MAX,
            index == selection_index(old(self).selection) && lowest_y_of(next_highest_y as int, calculation_height as int, result_height as int) < TITLE_BAR_HEIGHT ==> {
                &&& lowest_y_of(next_highest_y as int, calculation_height as int, result_height as int) > i16::MIN
                &&& old(self).starting_y + abs_of(lowest_y_of(next_highest_y as int, calculation_height as int, result_height as int)) + TITLE_BAR_HEIGHT <= i16::MAX
            },
            index == selection_index(old(self).selection) && next_highest_y > display_height as i16 ==> {
                &&& next_highest_y - display_height as i16 <= i16::MAX
                &&& old(self).starting_y - (next_highest_y - display_height as i16) >= i16::MIN
            },
        ensures
            ({
                let lowest = lowest_y_of(next_highest_y as int, calculation_height as int, result_height as int);
                let selected = index == selection_index(old(self).selection);
                if selected && lowest < TITLE_BAR_HEIGHT {
                    &&& r == Placement::Rescrolled
                    &&& final(self).starting_y == old(self).starting_y + abs_of(lowest) + TITLE_BAR_HEIGHT
                } else if selected && next_highest_y > display_height as i16 {
                    &&& r == Placement::Rescrolled
                    &&& final(self).starting_y == old(self).starting_y - (next_highest_y - display_height as i16)
                } else {
                    &&& r == (Placement::Placed {
                        lowest_y: lowest as i16,
                        rest_clipped: lowest < TITLE_BAR_HEIGHT,
                        below_screen: lowest > display_height as i16,
                    })
                    &&& final(self).starting_y == old(self).starting_y
                }
            }),
            final(self).selection == old(self).selection,
            final(self).calculation_count == old(self).calculation_count,
            final(self).result_scroll_x == old(self).result_scroll_x,
            final(self).sprite_cache == old(self).sprite_cache,
    {
        let total = calculation_height + PADDING + result_height;
        let lowest = next_highest_y - #[verifier::truncate] (total as i16);
        let selected = index == self.selection.index();
        let title = TITLE_BAR_HEIGHT as i16;
        if lowest < title && selected {
            let above = if lowest < 0 { -lowest } else { lowest };
            self.starting_y = self.starting_y + above;
            self.starting_y = self.starting_y + title;
            return Placement::Rescrolled;
        }
        let bottom = #[verifier::truncate] (display_height as i16);
        if next_highest_y > bottom && selected {
            self.starting_y = self.starting_y - (next_highest_y - bottom);
            return Placement::Rescrolled;
        }
        Placement::Placed { lowest_y: lowest, rest_clipped: lowest < title, below_screen: lowest > bottom }
    }
}

/// The index of the calculation a selection is in.
pub open spec fn selection_index(s: Selection) -> int {
    match s {
        Selection::Expression(i) => i as int,
        Selection::Result(i) => i as int,
    }
}

/// The magnitude of `v`.
pub open spec fn abs_of(v: int) -> int {
    if v < 0 { -v } else { v }
}


/// Where a result `result_width` pixels wide is drawn across a display `width` pixels wide: right
/// aligned within the padding, but no further left than the padding, then moved left by the
/// scroll when it is the selected one. Widths and the scroll are taken as `i16`.
pub open spec fn result_x(width: int, result_width: int, selected: bool, scroll: int) -> int {
    let right_aligned = (width as u16 as i16) - PADDING - (result_width as u16 as i16);
    let start = if right_aligned > PADDING { right_aligned } else { PADDING as int };
    start - if selected { scroll as u16 as i16 as int } else { 0 }
}

/// The pixels of a display `width` by `height` after the result drawn on `result` is shown with
/// the bottom of its calculation's expression at row `y`: on a grey band when selected, below a
/// grey line across the display within the padding, at `result_x`, twice the padding down.
pub open spec fn result_drawn(data: Seq<Colour>, width: int, height: int, y: int, result: Sprite, selected: bool, scroll: int) -> Seq<Colour> {
    let banded = if selected {
        rect_painted(data, width, height, 0, y + PADDING, width, 2 * PADDING + result.height, Colour(0x24), true)
    } else {
        data
    };
    let lined = line_painted(banded, width, PADDING as int, y + PADDING, (width as u16 as i16) - PADDING, y + PADDING, Colour(0x24));
    blit(lined, width, result_x(width, result.width as int, selected, scroll), y + 2 * PADDING, result, result.width as int)
}

/// Whether the result drawn on `result` can be shown with its calculation's expression ending at
/// row `y` on a display `width` by `height` holding `len` pixels, without a fault.
pub open spec fn result_draw_ok(len: int, width: int, height: int, y: int, result: Sprite, selected: bool, scroll: int) -> bool {
    let x = result_x(width, result.width as int, selected, scroll);
    &&& result.wf()
    &&& y + 2 * PADDING <= i16::MAX
    &&& (width as u16 as i16) - PADDING >= i16::MIN
    &&& (width as u16 as i16) - PADDING - (result.width as u16 as i16) >= i16::MIN
    &&& i16::MIN <= x <= i16::MAX
    &&& selected ==> 2 * PADDING + result.height <= u16::MAX && clip_ok(y + PADDING, 2 * PADDING + result.height, height)
    &&& line_ok(len, width, PADDING as int, y + PADDING, (width as u16 as i16) - PADDING, y + PADDING)
    &&& result.width > 0 ==> x + saturate_i16((result.width - 1) as u16) <= i16::MAX
    &&& result.height > 0 ==> y + 2 * PADDING + saturate_i16((result.height - 1) as u16) <= i16::MAX
    &&& forall|ox: int, oy: int| 0 <= ox < result.width && 0 <= oy < result.height ==> #[trigger] blit_pixel_ok(len, width, x, y + 2 * PADDING, ox, oy)
}

impl CalculatorApplication {
    /// Shows the result drawn on `result_sprite` below the expression of its calculation, which
    /// ends at row `y`: a grey band behind it when it is selected, a grey line above it, and the
    /// result right-aligned (scrolled when selected).
    pub fn draw_result(&self, sprite: &mut Sprite, y: i16, result_sprite: &Sprite, is_selected: bool)
        requires
            old(sprite).wf(),
            result_draw_ok(
                old(sprite).data@.len() as int,
                old(sprite).width as int,
                old(sprite).height as int,
                y as int,
                *result_sprite,
                is_selected,
                self.result_scroll_x as int,
            ),
        ensures
            final(sprite).wf(),
            old(sprite).same_frame(&*final(sprite)),
            final(sprite).data@ == result_drawn(
                old(sprite).data@,
                old(sprite).width as int,
                old(sprite).height as int,
                y as int,
                *result_sprite,
                is_selected,
                self.result_scroll_x as int,
            ),
    {
        let padding = PADDING as i16;
        if is_selected {
            let width = sprite.width;
            sprite.draw_rect(0, y + padding, width, 2 * PADDING + result_sprite.height, Colour::grey(), ShapeFill::Filled, 0);
        }
        let right = #[verifier::truncate] (sprite.width as i16);
        sprite.draw_line(padding, y + padding, right - padding, y + padding, Colour::grey());
        let aligned = right - padding - #[verifier::truncate] (result_sprite.width as i16);
        let start = if aligned > padding { aligned } else { padding };
        let x = start - if is_selected { #[verifier::truncate] (self.result_scroll_x as i16) } else { 0 };
        sprite.draw_sprite(x, y + padding * 2, result_sprite);
    }
}

} // verus!
