use delta_pico::calculator::{CalculatorApplication, CalculatorStep, Placement, Selection};
use delta_pico::display::Colour;
use delta_pico::graphics::Sprite;
use delta_pico::input::{ButtonInput, OSInput};
use delta_pico::sprite_cache::SpriteCacheEntry;

fn all_blank(app: &CalculatorApplication) -> bool {
    (0..app.calculation_count).all(|i| matches!(app.sprite_cache.entry(i), SpriteCacheEntry::Blank))
}

#[test]
fn calculator_starts_on_an_empty_calculation() {
    let fresh = CalculatorApplication::new(0, None, 320);
    assert_eq!(fresh.calculation_count, 1);
    assert_eq!(fresh.selection, Selection::Expression(0));
    assert_eq!((fresh.starting_y, fresh.result_scroll_x), (320, 0));
    assert!(all_blank(&fresh));
    // A history whose last calculation is not empty gets an empty one added.
    let added = CalculatorApplication::new(3, Some(false), 320);
    assert_eq!(added.calculation_count, 4);
    assert_eq!(added.selection, Selection::Expression(3));
    // One whose last calculation is empty already does not.
    let kept = CalculatorApplication::new(3, Some(true), 320);
    assert_eq!(kept.calculation_count, 3);
    assert_eq!(kept.selection, Selection::Expression(2));
}

#[test]
fn calculator_keys_choose_a_step() {
    let mut app = CalculatorApplication::new(2, Some(false), 320);
    let key = |b| OSInput::Button(b);
    assert_eq!(app.step_for(key(ButtonInput::Exe)), CalculatorStep::NewCalculation);
    assert_eq!(app.step_for(key(ButtonInput::List)), CalculatorStep::OpenHistoryMenu);
    assert_eq!(app.step_for(key(ButtonInput::MoveLeft)), CalculatorStep::Edit);
    assert_eq!(app.step_for(key(ButtonInput::Digit(4))), CalculatorStep::Edit);
    app.selection = Selection::Result(1);
    assert_eq!(app.step_for(key(ButtonInput::MoveLeft)), CalculatorStep::ScrollResult);
    assert_eq!(app.step_for(key(ButtonInput::MoveRight)), CalculatorStep::ScrollResult);
    assert_eq!(app.step_for(key(ButtonInput::MoveUp)), CalculatorStep::Edit);
}

#[test]
fn executing_starts_a_new_calculation() {
    let mut app = CalculatorApplication::new(2, Some(false), 320);
    app.starting_y = 400;
    app.result_scroll_x = 30;
    let previous = app.start_new_calculation(320);
    assert_eq!(previous, Selection::Expression(2));
    assert_eq!(app.calculation_count, 4);
    assert_eq!(app.selection, Selection::Expression(3));
    assert_eq!((app.starting_y, app.result_scroll_x), (320, 0));
    assert!(all_blank(&app));
}

#[test]
fn results_scroll_within_their_width() {
    let mut app = CalculatorApplication::new(1, Some(false), 320);
    app.selection = Selection::Result(0);
    // A result that fits does not scroll right.
    app.scroll_result(true, Some(200));
    assert_eq!(app.result_scroll_x, 0);
    // A wide one scrolls by ten, up to its overhang of 300 - 220 = 80.
    app.scroll_result(true, Some(300));
    assert_eq!(app.result_scroll_x, 10);
    for _ in 0..10 {
        app.scroll_result(true, Some(300));
    }
    assert_eq!(app.result_scroll_x, 80);
    app.scroll_result(false, None);
    assert_eq!(app.result_scroll_x, 70);
    app.result_scroll_x = 4;
    app.scroll_result(false, None);
    assert_eq!(app.result_scroll_x, 0);
}

#[test]
fn moving_out_walks_the_history() {
    let mut app = CalculatorApplication::new(2, Some(false), 320);
    // At the bottom of the last expression, down moves to its result; there it stops.
    assert_eq!(app.move_out(false), Some(Selection::Expression(2)));
    assert_eq!(app.selection, Selection::Result(2));
    assert_eq!(app.move_out(false), None);
    assert_eq!(app.selection, Selection::Result(2));
    app.result_scroll_x = 20;
    assert_eq!(app.move_out(true), Some(Selection::Result(2)));
    assert_eq!(app.selection, Selection::Expression(2));
    assert_eq!(app.result_scroll_x, 20);
    assert_eq!(app.move_out(true), Some(Selection::Expression(2)));
    assert_eq!(app.selection, Selection::Result(1));
    assert!(all_blank(&app));
    app.selection = Selection::Expression(0);
    assert_eq!(app.move_out(true), None);
    assert_eq!(app.selection, Selection::Expression(0));
    assert_eq!(app.move_out(false), Some(Selection::Expression(0)));
    assert_eq!(app.result_scroll_x, 0);
}

#[test]
fn calculations_are_placed_up_the_display() {
    let mut app = CalculatorApplication::new(2, Some(false), 320);
    // A calculation of 20 + 10 + 30 pixels ending at row 320 starts at row 260.
    assert_eq!(
        app.place(1, 320, 20, 30, 320),
        Placement::Placed { lowest_y: 260, rest_clipped: false, below_screen: false }
    );
    // One reaching above the title bar clips the rest.
    assert_eq!(
        app.place(0, 60, 20, 30, 320),
        Placement::Placed { lowest_y: 0, rest_clipped: true, below_screen: false }
    );
    // One below the display is marked so.
    assert_eq!(
        app.place(0, 400, 20, 30, 320),
        Placement::Placed { lowest_y: 340, rest_clipped: false, below_screen: true }
    );
    assert_eq!(app.starting_y, 320);
    // The selected calculation sticking out 10 pixels above the top scrolls by 10 + 30.
    assert_eq!(app.place(2, 50, 20, 30, 320), Placement::Rescrolled);
    assert_eq!(app.starting_y, 360);
    // The selected calculation ending 25 pixels below the display scrolls up by 25.
    app.starting_y = 345;
    assert_eq!(app.place(2, 345, 20, 30, 320), Placement::Rescrolled);
    assert_eq!(app.starting_y, 320);
}

#[test]
fn results_are_drawn_right_aligned() {
    let mut app = CalculatorApplication::new(1, Some(false), 60);
    let mut display = Sprite::new(60, 60);
    let mut result = Sprite::new(8, 4);
    result.fill(Colour(0xFF));
    app.draw_result(&mut display, 10, &result, false);
    // A grey line from x = 10 up to 50 at row 20, and the result at x = 60 - 10 - 8 = 42, row 30.
    assert_eq!(display.try_pixel_immutable(10, 20), Some(Colour(0x24)));
    assert_eq!(display.try_pixel_immutable(49, 20), Some(Colour(0x24)));
    assert_eq!(display.try_pixel_immutable(50, 20), Some(Colour(0)));
    assert_eq!(display.try_pixel_immutable(42, 30), Some(Colour(0xFF)));
    assert_eq!(display.try_pixel_immutable(49, 33), Some(Colour(0xFF)));
    assert_eq!(display.try_pixel_immutable(41, 30), Some(Colour(0)));
    // Selected and scrolled by 5: a grey band from row 20, 24 rows high, and the result 5 left.
    let mut selected = Sprite::new(60, 60);
    app.result_scroll_x = 5;
    app.draw_result(&mut selected, 10, &result, true);
    assert_eq!(selected.try_pixel_immutable(0, 20), Some(Colour(0x24)));
    assert_eq!(selected.try_pixel_immutable(0, 43), Some(Colour(0x24)));
    assert_eq!(selected.try_pixel_immutable(0, 44), Some(Colour(0)));
    assert_eq!(selected.try_pixel_immutable(37, 30), Some(Colour(0xFF)));
    assert_eq!(selected.try_pixel_immutable(45, 30), Some(Colour(0x24)));
}
