use delta_pico::display::Colour;
use delta_pico::input::{ButtonInput, OSInput};
use delta_pico::numbers_game::{move_1d_tiles, Direction, NumbersGame, Tile};
use delta_pico::real_time::RealTimeResult;
use delta_pico::tetris::{TetrisApplication, TetrisEvent, Tetromino, TetrominoShape, Tile as Cell};

fn f(v: u64) -> Tile {
    Tile::Filled(v)
}

#[test]
fn tiles_merge_once_towards_the_start() {
    let (mut a, mut b, mut c, mut d) = (f(2), f(2), f(2), f(2));
    assert_eq!(move_1d_tiles(&mut a, &mut b, &mut c, &mut d), 8);
    assert_eq!((a, b, c, d), (f(4), f(4), Tile::Blank, Tile::Blank));

    let (mut a, mut b, mut c, mut d) = (Tile::Blank, f(4), Tile::Blank, f(4));
    assert_eq!(move_1d_tiles(&mut a, &mut b, &mut c, &mut d), 8);
    assert_eq!((a, b, c, d), (f(8), Tile::Blank, Tile::Blank, Tile::Blank));

    let (mut a, mut b, mut c, mut d) = (f(2), f(4), f(2), f(4));
    assert_eq!(move_1d_tiles(&mut a, &mut b, &mut c, &mut d), 0);
    assert_eq!((a, b, c, d), (f(2), f(4), f(2), f(4)));
}

#[test]
fn move_keeps_the_total_of_the_tiles() {
    let mut g = NumbersGame::new();
    g.board = [[f(2), f(2), Tile::Blank, f(4)], [Tile::Blank; 4], [f(8), Tile::Blank, f(8), f(8)], [Tile::Blank; 4]];
    let total_before: u64 = g.board.iter().flatten().map(|t| if let Tile::Filled(v) = t { *v } else { 0 }).sum();
    let gained = g.move_tiles(Direction::Left);
    assert_eq!(gained, 4 + 16);
    assert_eq!(g.board[0], [f(4), f(4), Tile::Blank, Tile::Blank]);
    assert_eq!(g.board[2], [f(16), f(8), Tile::Blank, Tile::Blank]);
    let total_after: u64 = g.board.iter().flatten().map(|t| if let Tile::Filled(v) = t { *v } else { 0 }).sum();
    assert_eq!(total_before, total_after);
}

#[test]
fn turn_adds_score_and_a_new_two() {
    let mut g = NumbersGame::new();
    let blanks_before = g.board.iter().flatten().filter(|t| **t == Tile::Blank).count();
    g.take_turn(Direction::Down);
    let blanks_after = g.board.iter().flatten().filter(|t| **t == Tile::Blank).count();
    assert_eq!(g.score, 0);
    assert_eq!(blanks_after, blanks_before - 1);
    assert!(!g.game_over);
}

#[test]
fn full_board_ends_the_game() {
    let mut g = NumbersGame::new();
    g.board = [[f(2), f(4), f(2), f(4)], [f(4), f(2), f(4), f(2)], [f(2), f(4), f(2), f(4)], [f(4), f(2), f(4), f(2)]];
    g.take_turn(Direction::Left);
    assert!(g.game_over);
    assert!(!g.input(OSInput::Button(ButtonInput::MoveUp)));
    assert!(g.input(OSInput::Button(ButtonInput::Exe)));
}

#[test]
fn tetromino_shapes() {
    let t = Tetromino { shape: TetrominoShape::T, colour: Colour::orange(), origin_x: 3, origin_y: 0 };
    assert_eq!((t.width(), t.height()), (3, 2));
    assert_eq!(t.mask(), vec![vec![false, true, false], vec![true, true, true]]);
    let i = Tetromino { shape: TetrominoShape::I, ..t };
    assert_eq!((i.width(), i.height()), (1, 4));
}

#[test]
fn tetromino_rests_on_floor_and_blocks() {
    let empty = vec![Cell::Blank; 160];
    let t = Tetromino { shape: TetrominoShape::Z, colour: Colour::red(), origin_x: 0, origin_y: 13 };
    assert!(!t.touching_floor(&empty));
    let low = Tetromino { origin_y: 14, ..t };
    assert!(low.touching_floor(&empty));
    let mut field = empty.clone();
    // A block right below the Z's bottom-right cell (2, 14).
    field[15 * 10 + 2] = Cell::Filled(Colour::grey());
    assert!(t.touching_floor(&field));
    t.copy_to_playfield(&mut field);
    assert_eq!(field[13 * 10 + 0], Cell::Filled(Colour::red()));
    assert_eq!(field[13 * 10 + 2], Cell::Blank);
    assert_eq!(field[14 * 10 + 2], Cell::Filled(Colour::red()));
}

#[test]
fn tetris_moves_and_falls() {
    let mut game = TetrisApplication::new(0);
    assert_eq!(game.on_event(TetrisEvent::Left, 0), RealTimeResult::Redraw);
    assert_eq!(game.tetromino.unwrap().origin_x, 2);
    game.on_event(TetrisEvent::Right, 0);
    assert_eq!(game.on_event(TetrisEvent::TickDown, 250), RealTimeResult::Redraw);
    assert_eq!(game.tetromino.unwrap().origin_y, 1);
    assert_eq!(game.real_time_state.time_scheduled_events.last(), Some(&(500, TetrisEvent::TickDown)));
}

#[test]
fn tetris_piece_lands_and_a_new_one_starts() {
    let mut game = TetrisApplication::new(0);
    for step in 0..14u32 {
        game.on_event(TetrisEvent::TickDown, step * 250);
    }
    let t = game.tetromino.unwrap();
    assert_eq!((t.origin_x, t.origin_y), (3, 0));
    assert!([Colour::blue(), Colour::orange(), Colour::dark_blue(), Colour::white()].contains(&t.colour));
    // The T landed at the bottom: its lower row fills cells 3 to 5 of row 15.
    assert_eq!(game.playfield[15 * 10 + 3], Cell::Filled(Colour::orange()));
    assert_eq!(game.playfield[15 * 10 + 5], Cell::Filled(Colour::orange()));
    assert_eq!(game.playfield[14 * 10 + 4], Cell::Filled(Colour::orange()));
}

#[test]
fn huge_tiles_move_while_nothing_overflows() {
    let big = 1u64 << 62;
    let (mut a, mut b, mut c, mut d) = (Tile::Blank, Tile::Blank, Tile::Filled(big), Tile::Blank);
    assert_eq!(move_1d_tiles(&mut a, &mut b, &mut c, &mut d), 0);
    assert_eq!((a, b, c, d), (Tile::Filled(big), Tile::Blank, Tile::Blank, Tile::Blank));
    // Two equal tiles of 2^62 merge into 2^63, which still fits.
    let (mut a, mut b, mut c, mut d) = (Tile::Filled(big), Tile::Filled(big), Tile::Blank, Tile::Blank);
    assert_eq!(move_1d_tiles(&mut a, &mut b, &mut c, &mut d), big * 2);
    assert_eq!(a, Tile::Filled(big * 2));
}

#[test]
fn moves_that_would_overflow_are_detected() {
    let mut game = NumbersGame::new();
    game.board = [[Tile::Blank; 4]; 4];
    game.board[0][0] = Tile::Filled(1u64 << 63);
    game.board[0][1] = Tile::Filled(1u64 << 63);
    // Moving left would merge the two into 2^64.
    assert!(!game.move_fits(Direction::Left));
    // Moving down keeps them apart.
    assert!(game.move_fits(Direction::Down));
    // A score that the gain would push past the limit also stops the move.
    game.board[0][0] = Tile::Filled(4);
    game.board[0][1] = Tile::Filled(4);
    game.score = u64::MAX - 7;
    assert!(!game.move_fits(Direction::Left));
    game.score = u64::MAX - 8;
    assert!(game.move_fits(Direction::Left));
}

#[test]
fn an_arrow_key_takes_a_whole_turn() {
    let mut game = NumbersGame::new();
    game.board = [[Tile::Blank; 4]; 4];
    game.board[0][2] = Tile::Filled(2);
    game.board[0][3] = Tile::Filled(2);
    game.score = 0;
    assert!(!game.input(OSInput::Button(ButtonInput::MoveLeft)));
    // The two tiles merge at the left edge, the score gains 4, and one new 2 appears.
    assert_eq!(game.board[0][0], Tile::Filled(4));
    assert_eq!(game.score, 4);
    let twos = game.board.iter().flatten().filter(|t| **t == Tile::Filled(2)).count();
    let blanks = game.board.iter().flatten().filter(|t| **t == Tile::Blank).count();
    assert_eq!((twos, blanks), (1, 14));
    assert!(!game.game_over);
}

#[test]
fn graph_trace_steps_between_plots() {
    assert_eq!(delta_pico::graph::trace_plot_step(0, 3, true), 2);
    assert_eq!(delta_pico::graph::trace_plot_step(1, 3, true), 0);
    assert_eq!(delta_pico::graph::trace_plot_step(2, 3, false), 0);
    assert_eq!(delta_pico::graph::trace_plot_step(0, 3, false), 1);
    assert!(delta_pico::graph::toggle_tracing(false, 2));
    assert!(!delta_pico::graph::toggle_tracing(false, 0));
    assert!(!delta_pico::graph::toggle_tracing(true, 2));
}
