use vstd::prelude::*;
use rand::StdRng;
use crate::input::{ButtonInput, OSInput};
use crate::decimal::{decimal, decimal_string, push_decimal};
use crate::display::{Colour, ShapeFill};
use crate::font::AsciiFont;
use crate::graphics::clip_ok;
use crate::os::{painted, printed, title_drawn, title_ok, ApplicationInfo, OperatingSystem};
use crate::text::{centred_offset, lemma_text_drawn_len, lemma_text_ok_any_pixels, measurable, text_drawn, text_ok, text_width};
use crate::wrap::push_char;
use vstd::string::StringExecFns;
use crate::random::{choose_copy, seeded_rng};

verus! {

/// A square of the board: empty, or holding a number.
#[derive(PartialEq, Eq, Debug, Copy, Clone, Structural)]
pub enum Tile {
    Blank,
    Filled(u64),
}

/// A direction in which tiles are pushed.
#[derive(PartialEq, Eq, Debug, Copy, Clone, Structural)]
pub enum Direction {
    Up,
    Down,
    Left,
    Right,
}

/// The numbers of the filled tiles among `tiles`, in order.
pub open spec fn filled_values(tiles: Seq<Tile>) -> Seq<u64>
    decreases tiles.len(),
{
    if tiles.len() == 0 {
        Seq::empty()
    } else {
        let rest = filled_values(tiles.drop_last());
        match tiles.last() {
            Tile::Filled(v) => rest.push(v),
            Tile::Blank => rest,
        }
    }
}

/// The numbers after merging: from the front, each pair of equal neighbours becomes one tile of
/// twice the number; a merged tile does not merge again.
pub open spec fn merged(v: Seq<u64>) -> Seq<u64>
    decreases v.len(),
{
    if v.len() < 2 {
        v
    } else if v[0] == v[1] {
        seq![(2 * v[0]) as u64] + merged(v.subrange(2, v.len() as int))
    } else {
        seq![v[0]] + merged(v.subrange(1, v.len() as int))
    }
}

/// The score a merge gains: the sum of the numbers of the merged tiles.
pub open spec fn merge_score(v: Seq<u64>) -> int
    decreases v.len(),
{
    if v.len() < 2 {
        0
    } else if v[0] == v[1] {
        2 * v[0] + merge_score(v.subrange(2, v.len() as int))
    } else {
        merge_score(v.subrange(1, v.len() as int))
    }
}

/// Whether every tile that merging makes fits in a `u64`.
pub open spec fn merge_fits(v: Seq<u64>) -> bool
    decreases v.len(),
{
    if v.len() < 2 {
        true
    } else if v[0] == v[1] {
        2 * v[0] <= u64::MAX && merge_fits(v.subrange(2, v.len() as int))
    } else {
        merge_fits(v.subrange(1, v.len() as int))
    }
}

/// Whether moving the line of tiles `line` works without an overflow: every merged tile and the
/// score gained fit in a `u64`.
pub open spec fn line_fits(line: Seq<Tile>) -> bool {
    &&& merge_fits(filled_values(line))
    &&& merge_score(filled_values(line)) <= u64::MAX
}

/// Tile `i` of a line holding the numbers `v`, pushed to its front.
pub open spec fn tile_at(v: Seq<u64>, i: int) -> Tile {
    if 0 <= i < v.len() {
        Tile::Filled(v[i])
    } else {
        Tile::Blank
    }
}

/// The tiles of a line after a move: the numbers are pushed to the front and merged.
pub open spec fn moved_line(line: Seq<Tile>) -> Seq<Tile> {
    Seq::new(line.len(), |i: int| tile_at(merged(filled_values(line)), i))
}

/// The sum of a sequence of numbers.
pub open spec fn sum(v: Seq<u64>) -> int
    decreases v.len(),
{
    if v.len() == 0 {
        0
    } else {
        v[0] + sum(v.subrange(1, v.len() as int))
    }
}

/// Performs a movement along one row or column. Returns any score gained from the move.
///
/// t1 is the tile which is "the most squished" in the direction being moved to; t4 the least.
pub fn move_1d_tiles(t1: &mut Tile, t2: &mut Tile, t3: &mut Tile, t4: &mut Tile) -> (r: u64)
    requires
        line_fits(seq![*old(t1), *old(t2), *old(t3), *old(t4)]),
    ensures
        ({
            let line = seq![*old(t1), *old(t2), *old(t3), *old(t4)];
            &&& seq![*final(t1), *final(t2), *final(t3), *final(t4)] == moved_line(line)
            &&& r == merge_score(filled_values(line))
        }),
{
    let ghost line = seq![*t1, *t2, *t3, *t4];
    proof {
        assert(line.drop_last().drop_last().drop_last().drop_last() =~= Seq::<Tile>::empty());
        assert(line.drop_last().drop_last().drop_last() =~= seq![*t1]);
        assert(line.drop_last().drop_last() =~= seq![*t1, *t2]);
        assert(line.drop_last() =~= seq![*t1, *t2, *t3]);
        reveal_with_fuel(filled_values, 5);
        reveal_with_fuel(merge_fits, 3);
        reveal_with_fuel(merge_score, 3);
    }
    let a = *t1;
    let b = *t2;
    let c = *t3;
    let d = *t4;
    let ghost v = filled_values(line);
    let score = match (a, b, c, d) {
        // All blank, or one item but it's already in the right place - nothing to do!
        (_, Tile::Blank, Tile::Blank, Tile::Blank) => 0,
        // Only one item - move it along
        (Tile::Blank, Tile::Filled(x), Tile::Blank, Tile::Blank)
        | (Tile::Blank, Tile::Blank, Tile::Filled(x), Tile::Blank)
        | (Tile::Blank, Tile::Blank, Tile::Blank, Tile::Filled(x)) => {
            *t1 = Tile::Filled(x);
            *t2 = Tile::Blank;
            *t3 = Tile::Blank;
            *t4 = Tile::Blank;
            0
        },
        // Two items, where there is no room for a possible third on the less-squished side - we
        // may be able to merge them
        (Tile::Filled(an), Tile::Blank, Tile::Blank, Tile::Filled(bn))
        | (Tile::Blank, Tile::Filled(an), Tile::Blank, Tile::Filled(bn))
        | (Tile::Blank, Tile::Blank, Tile::Filled(an), Tile::Filled(bn)) => {
            if an == bn {
                let merged = an * 2;
                *t1 = Tile::Filled(merged);
                *t2 = Tile::Blank;
                *t3 = Tile::Blank;
                *t4 = Tile::Blank;
                merged
            } else {
                *t1 = Tile::Filled(an);
                *t2 = Tile::Filled(bn);
                *t3 = Tile::Blank;
                *t4 = Tile::Blank;
                0
            }
        },
        // Two or three items, where if the third item is filled, it may be possible to merge
        // either adjacent pair
        (Tile::Filled(an), Tile::Filled(bn), c, Tile::Blank)
        | (Tile::Filled(an), Tile::Filled(bn), Tile::Blank, c)
        | (Tile::Filled(an), Tile::Blank, Tile::Filled(bn), c)
        | (Tile::Blank, Tile::Filled(an), Tile::Filled(bn), c) => {
            if an == bn {
                let merged = an * 2;
                *t1 = Tile::Filled(merged);
                *t2 = c;
                *t3 = Tile::Blank;
                *t4 = Tile::Blank;
                merged
            } else if let Tile::Filled(cn) = c {
                if bn == cn {
                    let merged = bn * 2;
                    *t1 = Tile::Filled(an);
                    *t2 = Tile::Filled(merged);
                    *t3 = Tile::Blank;
                    *t4 = Tile::Blank;
                    merged
                } else {
                    *t1 = Tile::Filled(an);
                    *t2 = Tile::Filled(bn);
                    *t3 = c;
                    *t4 = Tile::Blank;
                    0
                }
            } else {
                *t1 = Tile::Filled(an);
                *t2 = Tile::Filled(bn);
                *t3 = c;
                *t4 = Tile::Blank;
                0
            }
        },
        // Four items
        (Tile::Filled(an), Tile::Filled(bn), Tile::Filled(cn), Tile::Filled(dn)) => {
            let a_b_mergable = an == bn;
            let c_d_mergable = cn == dn;
            let b_c_mergable = bn == cn;
            if a_b_mergable && c_d_mergable {
                let merged_first = an * 2;
                let merged_second = cn * 2;
                *t1 = Tile::Filled(merged_first);
                *t2 = Tile::Filled(merged_second);
                *t3 = Tile::Blank;
                *t4 = Tile::Blank;
                merged_first + merged_second
            } else if a_b_mergable {
                let merged = an * 2;
                *t1 = Tile::Filled(merged);
                *t2 = c;
                *t3 = d;
                *t4 = Tile::Blank;
                merged
            } else if b_c_mergable {
                let merged = bn * 2;
                *t2 = Tile::Filled(merged);
                *t3 = d;
                *t4 = Tile::Blank;
                merged
            } else if c_d_mergable {
                let merged = cn * 2;
                *t3 = Tile::Filled(merged);
                *t4 = Tile::Blank;
                merged
            } else {
                0
            }
        },
    };
    proof {
        reveal_with_fuel(merged, 4);
        reveal_with_fuel(merge_score, 4);
        let m = merged(v);
        assert(seq![*t1, *t2, *t3, *t4] =~= moved_line(line));
    }
    score
}

/// The board position of tile `k` (0 is the most squished) of line `i` when moving in `dir`.
pub open spec fn line_cell(dir: Direction, i: int, k: int) -> (int, int) {
    match dir {
        Direction::Up => (k, i),
        Direction::Down => (3 - k, i),
        Direction::Left => (i, k),
        Direction::Right => (i, 3 - k),
    }
}

/// The line that the board cell (`r`, `c`) lies on when moving in `dir`, and its place in it.
pub open spec fn cell_line(dir: Direction, r: int, c: int) -> (int, int) {
    match dir {
        Direction::Up => (c, r),
        Direction::Down => (c, 3 - r),
        Direction::Left => (r, c),
        Direction::Right => (r, 3 - c),
    }
}

pub open spec fn board_cell(board: [[Tile; 4]; 4], r: int, c: int) -> Tile {
    board@[r]@[c]
}

/// Line `i` of the board when moving in `dir`, most squished tile first.
pub open spec fn board_line(board: [[Tile; 4]; 4], dir: Direction, i: int) -> Seq<Tile> {
    Seq::new(4, |k: int| board_cell(board, line_cell(dir, i, k).0, line_cell(dir, i, k).1))
}

/// The board after moving in `dir`: every line is pushed and merged.
pub open spec fn moved_cell(board: [[Tile; 4]; 4], dir: Direction, r: int, c: int) -> Tile {
    let (i, k) = cell_line(dir, r, c);
    moved_line(board_line(board, dir, i))[k]
}

/// The score a move in `dir` gains.
pub open spec fn move_score(board: [[Tile; 4]; 4], dir: Direction) -> int {
    lines_score(board, dir, 4)
}

/// The score gained by the first `n` lines of a move in `dir`.
pub open spec fn lines_score(board: [[Tile; 4]; 4], dir: Direction, n: int) -> int
    decreases n,
{
    if n <= 0 {
        0
    } else {
        lines_score(board, dir, n - 1) + merge_score(filled_values(board_line(board, dir, n - 1)))
    }
}

/// Whether every line of the board merges without an overflow when moving in `dir`.
pub open spec fn board_merge_fits(board: [[Tile; 4]; 4], dir: Direction) -> bool {
    forall|i: int| 0 <= i < 4 ==> merge_fits(filled_values(#[trigger] board_line(board, dir, i)))
}

/// Whether a turn in `dir` took the board `before` (with the game over or not, `over_before`) to
/// `after` (`over_after`): the tiles moved and merged; then, if no tile is blank, the game is
/// over; otherwise a 2 was put on one of the blank tiles.
pub open spec fn turn_taken(before: [[Tile; 4]; 4], dir: Direction, over_before: bool, after: [[Tile; 4]; 4], over_after: bool) -> bool {
    &&& (forall|row: int, col: int| 0 <= row < 4 && 0 <= col < 4 ==> #[trigger] moved_cell(before, dir, row, col) != Tile::Blank)
        ==> {
        &&& over_after
        &&& forall|row: int, col: int|
            0 <= row < 4 && 0 <= col < 4 ==> #[trigger] board_cell(after, row, col) == moved_cell(before, dir, row, col)
    }
    &&& (exists|row: int, col: int| 0 <= row < 4 && 0 <= col < 4 && #[trigger] moved_cell(before, dir, row, col) == Tile::Blank)
        ==> {
        &&& over_after == over_before
        &&& exists|nr: int, nc: int|
            0 <= nr < 4 && 0 <= nc < 4 && moved_cell(before, dir, nr, nc) == Tile::Blank && forall|row: int, col: int|
                0 <= row < 4 && 0 <= col < 4 ==> #[trigger] board_cell(after, row, col) == if row == nr && col == nc {
                    Tile::Filled(2)
                } else {
                    moved_cell(before, dir, row, col)
                }
    }
}

/// The direction an arrow key moves the tiles in.
pub open spec fn direction_of(input: OSInput) -> Option<Direction> {
    if input == OSInput::Button(ButtonInput::MoveUp) {
        Some(Direction::Up)
    } else if input == OSInput::Button(ButtonInput::MoveDown) {
        Some(Direction::Down)
    } else if input == OSInput::Button(ButtonInput::MoveLeft) {
        Some(Direction::Left)
    } else if input == OSInput::Button(ButtonInput::MoveRight) {
        Some(Direction::Right)
    } else {
        None
    }
}

/// The "2048" game: a board of tiles, the score so far, and a generator for new tiles.
pub struct NumbersGame {
    pub score: u64,
    /// Row, then column.
    pub board: [[Tile; 4]; 4],
    pub rng: StdRng,
    pub game_over: bool,
}

impl NumbersGame {
    /// How the launcher lists this application: as "2048", shown.
    pub fn info() -> (r: ApplicationInfo)
        ensures
            r.name@ == "2048"@,
            r.visible,
    {
        ApplicationInfo { name: "2048".to_owned(), visible: true }
    }

    /// A new game with two tiles of 2.
    pub fn new() -> (r: NumbersGame)
        ensures
            r.score == 0,
            !r.game_over,
            forall|row: int, col: int|
                0 <= row < 4 && 0 <= col < 4 ==> #[trigger] board_cell(r.board, row, col) == if (row == 0 && col == 3) || (row
                    == 2 && col == 1) {
                    Tile::Filled(2)
                } else {
                    Tile::Blank
                },
    {
        let b = Tile::Blank;
        let board = [[b, b, b, Tile::Filled(2)], [b, b, b, b], [b, Tile::Filled(2), b, b], [b, b, b, b]];
        let seed: [usize; 4] = [1, 2, 3, 4];
        NumbersGame { score: 0, board, rng: seeded_rng(seed.as_slice()), game_over: false }
    }

    fn get(&self, r: usize, c: usize) -> (t: Tile)
        requires
            r < 4,
            c < 4,
        ensures
            t == board_cell(self.board, r as int, c as int),
    {
        self.board[r][c]
    }

    fn put(&mut self, r: usize, c: usize, t: Tile)
        requires
            r < 4,
            c < 4,
        ensures
            forall|r2: int, c2: int|
                0 <= r2 < 4 && 0 <= c2 < 4 ==> #[trigger] board_cell(final(self).board, r2, c2) == if r2 == r && c2 == c {
                    t
                } else {
                    board_cell(old(self).board, r2, c2)
                },
            final(self).score == old(self).score,
            final(self).game_over == old(self).game_over,
            final(self).rng == old(self).rng,
    {
        self.board[r][c] = t;
    }

    fn cell_of(dir: Direction, i: usize, k: usize) -> (rc: (usize, usize))
        requires
            i < 4,
            k < 4,
        ensures
            rc.0 == line_cell(dir, i as int, k as int).0,
            rc.1 == line_cell(dir, i as int, k as int).1,
            rc.0 < 4 && rc.1 < 4,
    {
        match dir {
            Direction::Up => (k, i),
            Direction::Down => (3 - k, i),
            Direction::Left => (i, k),
            Direction::Right => (i, 3 - k),
        }
    }

    /// Moves every tile of the board in `direction`, merging equal neighbours. Returns the score
    /// gained.
    pub fn move_tiles(&mut self, direction: Direction) -> (r: u64)
        requires
            board_merge_fits(old(self).board, direction),
            move_score(old(self).board, direction) <= u64::MAX,
        ensures
            forall|row: int, col: int|
                0 <= row < 4 && 0 <= col < 4 ==> #[trigger] board_cell(final(self).board, row, col) == moved_cell(
                    old(self).board,
                    direction,
                    row,
                    col,
                ),
            r == move_score(old(self).board, direction),
            final(self).score == old(self).score,
            final(self).game_over == old(self).game_over,
            final(self).rng == old(self).rng,
    {
        let ghost b0 = self.board;
        let mut score: u64 = 0;
        let mut i: usize = 0;
        while i < 4
            invariant
                0 <= i <= 4,
                board_merge_fits(b0, direction),
                move_score(b0, direction) <= u64::MAX,
                score as int == lines_score(b0, direction, i as int),
                forall|row: int, col: int|
                    0 <= row < 4 && 0 <= col < 4 ==> #[trigger] board_cell(self.board, row, col) == if cell_line(
                        direction,
                        row,
                        col,
                    ).0 < i {
                        moved_cell(b0, direction, row, col)
                    } else {
                        board_cell(b0, row, col)
                    },
                self.score == old(self).score,
                self.game_over == old(self).game_over,
                self.rng == old(self).rng,
                b0 == old(self).board,
            decreases 4 - i,
        {
            let (r0, c0) = Self::cell_of(direction, i, 0);
            let (r1, c1) = Self::cell_of(direction, i, 1);
            let (r2, c2) = Self::cell_of(direction, i, 2);
            let (r3, c3) = Self::cell_of(direction, i, 3);
            let mut t1 = self.get(r0, c0);
            let mut t2 = self.get(r1, c1);
            let mut t3 = self.get(r2, c2);
            let mut t4 = self.get(r3, c3);
            let ghost line = board_line(b0, direction, i as int);
            proof {
                assert(seq![t1, t2, t3, t4] =~= line);
                assert(merge_fits(filled_values(board_line(b0, direction, i as int))));
                lemma_merge_score_nonneg(filled_values(board_line(b0, direction, 0)));
                lemma_merge_score_nonneg(filled_values(board_line(b0, direction, 1)));
                lemma_merge_score_nonneg(filled_values(board_line(b0, direction, 2)));
                lemma_merge_score_nonneg(filled_values(board_line(b0, direction, 3)));
                reveal_with_fuel(lines_score, 5);
                assert(line_fits(line));
            }
            let gained = move_1d_tiles(&mut t1, &mut t2, &mut t3, &mut t4);
            self.put(r0, c0, t1);
            self.put(r1, c1, t2);
            self.put(r2, c2, t3);
            self.put(r3, c3, t4);
            proof {
                assert(merge_score(filled_values(line)) >= 0) by {
                    lemma_merge_score_nonneg(filled_values(line));
                }
                lemma_merge_score_nonneg(filled_values(board_line(b0, direction, 0)));
                lemma_merge_score_nonneg(filled_values(board_line(b0, direction, 1)));
                lemma_merge_score_nonneg(filled_values(board_line(b0, direction, 2)));
                lemma_merge_score_nonneg(filled_values(board_line(b0, direction, 3)));
                reveal_with_fuel(lines_score, 5);
            }
            score = score + gained;
            i = i + 1;
        }
        score
    }

    /// Takes one turn: moves the tiles, adds the score gained, and puts a new 2 on a random blank
    /// tile. When the moved board has no blank tile left, the game is over instead.
    pub fn take_turn(&mut self, direction: Direction)
        requires
            board_merge_fits(old(self).board, direction),
            old(self).score + move_score(old(self).board, direction) <= u64::MAX,
        ensures
            final(self).score == old(self).score + move_score(old(self).board, direction),
            turn_taken(old(self).board, direction, old(self).game_over, final(self).board, final(self).game_over),
    {
        let ghost b0 = self.board;
        proof {
            lemma_merge_score_nonneg(filled_values(board_line(b0, direction, 0)));
            lemma_merge_score_nonneg(filled_values(board_line(b0, direction, 1)));
            lemma_merge_score_nonneg(filled_values(board_line(b0, direction, 2)));
            lemma_merge_score_nonneg(filled_values(board_line(b0, direction, 3)));
        }
        proof {
            reveal_with_fuel(lines_score, 5);
        }
        let gained = self.move_tiles(direction);
        self.score = self.score + gained;
        let mut blank_tiles: Vec<(usize, usize)> = Vec::new();
        let mut row: usize = 0;
        while row < 4
            invariant
                row <= 4,
                forall|k: int|
                    0 <= k < blank_tiles@.len() ==> {
                        let (r, c) = #[trigger] blank_tiles@[k];
                        r < row && c < 4 && board_cell(self.board, r as int, c as int) == Tile::Blank
                    },
                forall|r: int, c: int|
                    0 <= r < row && 0 <= c < 4 && #[trigger] board_cell(self.board, r, c) == Tile::Blank ==> blank_tiles@.contains(
                        (r as usize, c as usize),
                    ),
            decreases 4 - row,
        {
            let mut col: usize = 0;
            while col < 4
                invariant
                    row < 4,
                    col <= 4,
                    forall|k: int|
                        0 <= k < blank_tiles@.len() ==> {
                            let (r, c) = #[trigger] blank_tiles@[k];
                            (r < row || (r == row && c < col)) && c < 4 && board_cell(self.board, r as int, c as int) == Tile::Blank
                        },
                    forall|r: int, c: int|
                        0 <= c < 4 && (0 <= r < row || (r == row && 0 <= c < col)) && #[trigger] board_cell(self.board, r, c)
                            == Tile::Blank ==> blank_tiles@.contains((r as usize, c as usize)),
                decreases 4 - col,
            {
                if self.get(row, col) == Tile::Blank {
                    let ghost prev = blank_tiles@;
                    blank_tiles.push((row, col));
                    proof {
                        assert forall|r: int, c: int|
                            0 <= c < 4 && (0 <= r < row || (r == row && 0 <= c < col + 1)) && #[trigger] board_cell(self.board, r, c)
                                == Tile::Blank implies blank_tiles@.contains((r as usize, c as usize)) by {
                            if r == row && c == col {
                                assert(blank_tiles@[prev.len() as int] == (r as usize, c as usize));
                            } else {
                                assert(prev.contains((r as usize, c as usize)));
                                let k = choose|k: int| 0 <= k < prev.len() && prev[k] == (r as usize, c as usize);
                                assert(blank_tiles@[k] == (r as usize, c as usize));
                            }
                        }
                    }
                }
                col = col + 1;
            }
            row = row + 1;
        }
        match choose_copy(&mut self.rng, blank_tiles.as_slice()) {
            Some((r, c)) => {
                proof {
                    let k = choose|k: int| 0 <= k < blank_tiles@.len() && blank_tiles@[k] == (r, c);
                    assert(blank_tiles@[k] == (r, c));
                }
                self.put(r, c, Tile::Filled(2));
                proof {
                    assert(moved_cell(b0, direction, r as int, c as int) == Tile::Blank);
                }
            },
            None => {
                self.game_over = true;
                proof {
                    assert forall|row: int, col: int|
                        0 <= row < 4 && 0 <= col < 4 implies #[trigger] moved_cell(b0, direction, row, col) != Tile::Blank by {
                        if moved_cell(b0, direction, row, col) == Tile::Blank {
                            assert(board_cell(self.board, row, col) == Tile::Blank);
                            assert(blank_tiles@.contains((row as usize, col as usize)));
                        }
                    }
                }
            },
        }
    }

    /// Handles one input of the game: EXE asks for a restart (returned as `true`), and the arrow
    /// keys take a turn unless the game is over.
    pub fn input(&mut self, input: OSInput) -> (restart: bool)
        requires
            !old(self).game_over && direction_of(input) is Some ==> {
                &&& board_merge_fits(old(self).board, direction_of(input).unwrap())
                &&& old(self).score + move_score(old(self).board, direction_of(input).unwrap()) <= u64::MAX
            },
        ensures
            restart == (input == OSInput::Button(ButtonInput::Exe)),
            old(self).game_over || !(input == OSInput::Button(ButtonInput::MoveUp) || input == OSInput::Button(
                ButtonInput::MoveDown,
            ) || input == OSInput::Button(ButtonInput::MoveLeft) || input == OSInput::Button(ButtonInput::MoveRight))
                ==> final(self).board == old(self).board && final(self).score == old(self).score
                && final(self).game_over == old(self).game_over,
            !old(self).game_over && direction_of(input) is Some ==> turn_taken(
                old(self).board,
                direction_of(input).unwrap(),
                old(self).game_over,
                final(self).board,
                final(self).game_over,
            ),
            !old(self).game_over && input == OSInput::Button(ButtonInput::MoveLeft) ==> final(self).score == old(self).score
                + move_score(old(self).board, Direction::Left),
            !old(self).game_over && input == OSInput::Button(ButtonInput::MoveRight) ==> final(self).score == old(self).score
                + move_score(old(self).board, Direction::Right),
            !old(self).game_over && input == OSInput::Button(ButtonInput::MoveUp) ==> final(self).score == old(self).score
                + move_score(old(self).board, Direction::Up),
            !old(self).game_over && input == OSInput::Button(ButtonInput::MoveDown) ==> final(self).score == old(self).score
                + move_score(old(self).board, Direction::Down),
    {
        let restart = input == OSInput::Button(ButtonInput::Exe);
        if !self.game_over {
            match input {
                OSInput::Button(ButtonInput::MoveDown) => {
                    self.take_turn(Direction::Down)
                },
                OSInput::Button(ButtonInput::MoveUp) => {
                    self.take_turn(Direction::Up)
                },
                OSInput::Button(ButtonInput::MoveLeft) => {
                    self.take_turn(Direction::Left)
                },
                OSInput::Button(ButtonInput::MoveRight) => {
                    self.take_turn(Direction::Right)
                },
                _ => {},
            }
        }
        restart
    }
}

pub proof fn lemma_merge_score_nonneg(v: Seq<u64>)
    ensures
        merge_score(v) >= 0,
    decreases v.len(),
{
    if v.len() >= 2 {
        if v[0] == v[1] {
            lemma_merge_score_nonneg(v.subrange(2, v.len() as int));
        } else {
            lemma_merge_score_nonneg(v.subrange(1, v.len() as int));
        }
    }
}

/// Merging keeps the sum of the numbers, and never makes more tiles.
pub proof fn lemma_merged_sum(v: Seq<u64>)
    requires
        merge_fits(v),
    ensures
        sum(merged(v)) == sum(v),
        merged(v).len() <= v.len(),
    decreases v.len(),
{
    let n = v.len() as int;
    if n >= 2 {
        if v[0] == v[1] {
            let rest = v.subrange(2, n);
            lemma_merged_sum(rest);
            let m = seq![(2 * v[0]) as u64] + merged(rest);
            assert(m.subrange(1, m.len() as int) =~= merged(rest));
            assert(v.subrange(1, n).subrange(1, n - 1) =~= rest);
            assert(((2 * v[0]) as u64) as int == 2 * v[0]);
            assert(sum(m) == m[0] + sum(merged(rest)));
            assert(sum(v.subrange(1, n)) == v[1] + sum(rest));
        } else {
            let rest = v.subrange(1, n);
            lemma_merged_sum(rest);
            let m = seq![v[0]] + merged(rest);
            assert(m.subrange(1, m.len() as int) =~= merged(rest));
            assert(sum(m) == m[0] + sum(merged(rest)));
        }
    }
}

/// The numbers of a line pushed to the front and padded with blanks are the numbers themselves.
pub proof fn lemma_filled_values_of_padded(m: Seq<u64>, n: nat)
    ensures
        filled_values(Seq::new(n, |i: int| tile_at(m, i))) == m.subrange(0, if n < m.len() { n as int } else { m.len() as int }),
    decreases n,
{
    let line = Seq::new(n, |i: int| tile_at(m, i));
    if n > 0 {
        let shorter = Seq::new((n - 1) as nat, |i: int| tile_at(m, i));
        assert(line.drop_last() =~= shorter);
        lemma_filled_values_of_padded(m, (n - 1) as nat);
        let k = if n < m.len() { n as int } else { m.len() as int };
        let k1 = if n - 1 < m.len() { n - 1 } else { m.len() as int };
        if n - 1 < m.len() {
            assert(m.subrange(0, k1).push(m[n - 1]) =~= m.subrange(0, k));
        }
    } else {
        assert(filled_values(line) =~= m.subrange(0, 0));
    }
}

/// Moving a line keeps the total of its numbers: merging two tiles makes one of their sum.
pub proof fn lemma_move_keeps_total(line: Seq<Tile>)
    requires
        merge_fits(filled_values(line)),
    ensures
        sum(filled_values(moved_line(line))) == sum(filled_values(line)),
        filled_values(moved_line(line)).len() <= filled_values(line).len(),
{
    let v = filled_values(line);
    lemma_merged_sum(v);
    lemma_filled_values_len(line);
    lemma_filled_values_of_padded(merged(v), line.len());
    assert(moved_line(line) =~= Seq::new(line.len(), |i: int| tile_at(merged(v), i)));
    assert(merged(v).subrange(0, merged(v).len() as int) =~= merged(v));
}

pub proof fn lemma_filled_values_len(line: Seq<Tile>)
    ensures
        filled_values(line).len() <= line.len(),
    decreases line.len(),
{
    if line.len() > 0 {
        lemma_filled_values_len(line.drop_last());
    }
}

/// The side of a tile on a display `width` pixels wide: four tiles and five gaps of 10 pixels
/// fill the width.
pub open spec fn tile_side(width: int) -> int {
    (width - 50) / 4
}

/// The top-left corner of the tile in row `r` and column `c`; the board starts 50 pixels down.
pub open spec fn tile_origin(width: int, r: int, c: int) -> (int, int) {
    (10 + c * (tile_side(width) + 10), 50 + r * (tile_side(width) + 10))
}

/// The text a tile shows: its number with two spaces on each side, or four spaces when blank.
pub open spec fn tile_text(t: Tile) -> Seq<char> {
    match t {
        Tile::Blank => seq![' ', ' ', ' ', ' '],
        Tile::Filled(n) => seq![' ', ' '] + decimal(n as nat) + seq![' ', ' '],
    }
}

/// The colour of a tile: grey when blank, orange when it holds a number.
pub open spec fn tile_fill(t: Tile) -> Colour {
    match t {
        Tile::Blank => Colour(0x24),
        Tile::Filled(_) => Colour(0xCC),
    }
}

/// The line under the board: the score, followed by a hint to restart once the game is over.
pub open spec fn score_text(score: u64, over: bool) -> Seq<char> {
    if over {
        decimal(score as nat) + " | [EXE] Restart"@
    } else {
        decimal(score as nat)
    }
}

/// The cursor and pixels after a tile is drawn with its corner at `(x, y)`: a square in its
/// colour, then its text centred in it a third of the way down.
pub open spec fn tile_drawn<F: AsciiFont>(font: &F, width: int, height: int, state: (int, int, Seq<Colour>), t: Tile, x: int, y: int) -> (int, int, Seq<Colour>) {
    let side = tile_side(width);
    let filled = painted(state, width, height, x, y, side, side, tile_fill(t), true);
    text_drawn(font, width, (x + centred_offset(font, side as u16, tile_text(t)), y + side / 3, filled.2), tile_text(t))
}

/// The cursor and pixels after the first `k` tiles of the board, row by row, are drawn.
pub open spec fn tiles_drawn<F: AsciiFont>(font: &F, width: int, height: int, state: (int, int, Seq<Colour>), board: [[Tile; 4]; 4], k: int) -> (int, int, Seq<Colour>)
    decreases k,
{
    if k <= 0 {
        state
    } else {
        let i = k - 1;
        tile_drawn(
            font,
            width,
            height,
            tiles_drawn(font, width, height, state, board, k - 1),
            board_cell(board, i / 4, i % 4),
            tile_origin(width, i / 4, i % 4).0,
            tile_origin(width, i / 4, i % 4).1,
        )
    }
}

/// Whether tile `i` of the board (row by row) can be drawn without a fault.
pub open spec fn tile_ok<F: AsciiFont>(font: &F, width: int, height: int, pixels: Seq<Colour>, board: [[Tile; 4]; 4], i: int) -> bool {
    let side = tile_side(width);
    let text = tile_text(board_cell(board, i / 4, i % 4));
    let (x, y) = tile_origin(width, i / 4, i % 4);
    &&& clip_ok(x, side, width)
    &&& clip_ok(y, side, height)
    &&& measurable(font, text)
    &&& i16::MIN <= side - text_width(font, text) <= i16::MAX
    &&& i16::MIN <= x + centred_offset(font, side as u16, text) <= i16::MAX
    &&& text_ok(font, width, (x + centred_offset(font, side as u16, text), y + side / 3, pixels), text)
}

/// Whether the board fits a display `width` pixels wide with every coordinate within `i16`.
pub open spec fn board_fits(width: int) -> bool {
    &&& width >= 50
    &&& 50 + 4 * (tile_side(width) + 10) <= 32767
}

/// The game's screen on a display `width` by `height` whose cursor and pixels were `state`:
/// black, the title bar, the tiles, and the score line at `(10, 285)`.
pub open spec fn numbers_screen<F: AsciiFont>(
    font: &F,
    width: int,
    height: int,
    state: (int, int, Seq<Colour>),
    game: NumbersGame,
    text_mode: bool,
    shift: bool,
) -> (int, int, Seq<Colour>) {
    let blank = (state.0, state.1, Seq::new((width * height) as nat, |i: int| Colour(0)));
    let titled = title_drawn(font, width, height, blank, "Numbers Game"@, text_mode, shift);
    let tiles = tiles_drawn(font, width, height, titled, game.board, 16);
    printed(font, width, tiles, 10, 285, score_text(game.score, game.game_over))
}

impl NumbersGame {
    /// Draws the game onto the display: a black screen, the title bar, the board as coloured
    /// squares with their numbers centred, and the score under it.
    pub fn draw<F: AsciiFont>(&self, os: &mut OperatingSystem, font: &F)
        requires
            old(os).display_sprite.wf(),
            board_fits(old(os).display_sprite.width as int),
            title_ok(
                font,
                old(os).display_sprite.width as int,
                old(os).display_sprite.height as int,
                old(os).display_sprite.data@,
                "Numbers Game"@,
                old(os).text_mode,
                old(os).input_shift,
            ),
            forall|i: int| 0 <= i < 16 ==> #[trigger] tile_ok(
                font,
                old(os).display_sprite.width as int,
                old(os).display_sprite.height as int,
                old(os).display_sprite.data@,
                self.board,
                i,
            ),
            text_ok(
                font,
                old(os).display_sprite.width as int,
                (10, 285, old(os).display_sprite.data@),
                score_text(self.score, self.game_over),
            ),
        ensures
            final(os).display_sprite.wf(),
            final(os).display_sprite.width == old(os).display_sprite.width,
            final(os).display_sprite.height == old(os).display_sprite.height,
            final(os).display_sprite.text_state() == numbers_screen(
                font,
                old(os).display_sprite.width as int,
                old(os).display_sprite.height as int,
                old(os).display_sprite.text_state(),
                *self,
                old(os).text_mode,
                old(os).input_shift,
            ),
            final(os).filesystem == old(os).filesystem,
            final(os).text_mode == old(os).text_mode,
            final(os).input_shift == old(os).input_shift,
            final(os).showing_menu == old(os).showing_menu,
            final(os).active_application_index == old(os).active_application_index,
    {
        let ghost w = os.display_sprite.width as int;
        let ghost h = os.display_sprite.height as int;
        let ghost d0 = os.display_sprite.data@;
        os.display_sprite.fill(Colour::black());
        let ghost blank = os.display_sprite.text_state();
        assert(blank.2 =~= Seq::new((w * h) as nat, |i: int| Colour(0)));
        let title = "Numbers Game";
        proof {
            lemma_text_ok_any_pixels(font, w, 5, 7, d0, blank.2, title@);
            if old(os).text_mode {
                lemma_text_ok_any_pixels(font, w, 149, 6, d0, blank.2, "TEXT"@);
                lemma_text_ok_any_pixels(font, w, 153, 6, d0, blank.2, "text"@);
            }
        }
        os.ui_draw_title(font, title);
        let ghost titled = os.display_sprite.text_state();
        let width = os.display_sprite.width;
        let side: u16 = (width - 50) / 4;
        assert(side == tile_side(w));
        let mut k: usize = 0;
        while k < 16
            invariant
                k <= 16,
                os.display_sprite.wf(),
                w == os.display_sprite.width,
                h == os.display_sprite.height,
                width == w,
                side == tile_side(w),
                board_fits(w),
                d0.len() == w * h,
                forall|i: int| 0 <= i < 16 ==> #[trigger] tile_ok(font, w, h, d0, self.board, i),
                os.display_sprite.text_state() == tiles_drawn(font, w, h, titled, self.board, k as int),
                os.filesystem == old(os).filesystem,
                os.text_mode == old(os).text_mode,
                os.input_shift == old(os).input_shift,
                os.showing_menu == old(os).showing_menu,
                os.active_application_index == old(os).active_application_index,
            decreases 16 - k,
        {
            let r = k / 4;
            let c = k % 4;
            assert(tile_ok(font, w, h, d0, self.board, k as int));
            assert(0 <= c * (side + 10) <= 3 * (side + 10) && 0 <= r * (side + 10) <= 3 * (side + 10)) by (nonlinear_arith)
                requires r < 4, c < 4, 0 <= side;
            let x = (10 + (c as i32) * (side as i32 + 10)) as i16;
            let y = (50 + (r as i32) * (side as i32 + 10)) as i16;
            let tile = self.board[r][c];
            assert(tile == board_cell(self.board, k as int / 4, k as int % 4));
            let mut text = String::new();
            let colour = match tile {
                Tile::Blank => {
                    push_char(&mut text, ' ');
                    push_char(&mut text, ' ');
                    push_char(&mut text, ' ');
                    push_char(&mut text, ' ');
                    Colour::grey()
                },
                Tile::Filled(n) => {
                    push_char(&mut text, ' ');
                    push_char(&mut text, ' ');
                    push_decimal(&mut text, n);
                    push_char(&mut text, ' ');
                    push_char(&mut text, ' ');
                    Colour::orange()
                },
            };
            assert(text@ =~= tile_text(tile));
            let ghost before = os.display_sprite.text_state();
            os.display_sprite.draw_rect(x, y, side, side, colour, ShapeFill::Filled, 4);
            let ghost d1 = os.display_sprite.data@;
            proof {
                lemma_text_ok_any_pixels(
                    font,
                    w,
                    x + centred_offset(font, side, text@),
                    y + side / 3,
                    d0,
                    d1,
                    text@,
                );
                lemma_text_drawn_len(font, w, (x + centred_offset(font, side, text@), y + side / 3, d1), text@);
            }
            os.display_sprite.print_centred(font, x, y + (side / 3) as i16, side, text.as_str());
            k = k + 1;
        }
        let mut score = decimal_string(self.score);
        if self.game_over {
            score.append(" | [EXE] Restart");
        }
        assert(score@ =~= score_text(self.score, self.game_over));
        let ghost d2 = os.display_sprite.data@;
        proof {
            lemma_text_ok_any_pixels(font, w, 10, 285, d0, d2, score@);
            lemma_text_drawn_len(font, w, (10, 285, d2), score@);
        }
        os.display_sprite.print_at(font, 10, 285, score.as_str());
    }
}


/// The score that merging the numbers `v` gains, or `None` if a merged tile or the score does
/// not fit in a `u64`.
fn checked_merge_score(v: &Vec<u64>) -> (r: Option<u64>)
    ensures
        r is Some == (merge_fits(v@) && merge_score(v@) <= u64::MAX),
        r matches Some(score) ==> score == merge_score(v@),
{
    let n = v.len();
    let mut j: usize = 0;
    let mut score: u64 = 0;
    assert(v@.subrange(0, n as int) =~= v@);
    while j < n
        invariant
            n == v@.len(),
            j <= n,
            merge_fits(v@) == merge_fits(v@.subrange(j as int, n as int)),
            merge_score(v@) == score + merge_score(v@.subrange(j as int, n as int)),
        decreases n - j,
    {
        let ghost rest = v@.subrange(j as int, n as int);
        if j + 1 < n && v[j] == v[j + 1] {
            assert(rest[0] == v@[j as int] && rest[1] == v@[j + 1]);
            assert(rest.subrange(2, rest.len() as int) =~= v@.subrange(j + 2, n as int));
            proof {
                lemma_merge_score_nonneg(v@.subrange(j + 2, n as int));
            }
            if v[j] > u64::MAX / 2 {
                return None;
            }
            let merged = v[j] * 2;
            if score > u64::MAX - merged {
                return None;
            }
            score = score + merged;
            j = j + 2;
        } else {
            if j + 1 < n {
                assert(rest[0] == v@[j as int] && rest[1] == v@[j + 1]);
            }
            assert(rest.subrange(1, rest.len() as int) =~= v@.subrange(j + 1, n as int));
            j = j + 1;
        }
    }
    Some(score)
}

impl NumbersGame {
    /// Whether a move in `direction` can be made without an overflow: every merged tile, and the
    /// score once the move's gain is added, fit in a `u64`.
    pub fn move_fits(&self, direction: Direction) -> (r: bool)
        ensures
            r == (board_merge_fits(self.board, direction) && self.score + move_score(self.board, direction) <= u64::MAX),
    {
        let mut total: u64 = self.score;
        let mut i: usize = 0;
        while i < 4
            invariant
                i <= 4,
                forall|k: int| 0 <= k < i ==> merge_fits(filled_values(#[trigger] board_line(self.board, direction, k))),
                total == self.score + lines_score(self.board, direction, i as int),
            decreases 4 - i,
        {
            let ghost line = board_line(self.board, direction, i as int);
            let mut v: Vec<u64> = Vec::new();
            let mut k: usize = 0;
            while k < 4
                invariant
                    k <= 4,
                    i < 4,
                    line == board_line(self.board, direction, i as int),
                    v@ == filled_values(line.subrange(0, k as int)),
                decreases 4 - k,
            {
                let (r, c) = Self::cell_of(direction, i, k);
                assert(line.subrange(0, k + 1).drop_last() =~= line.subrange(0, k as int));
                assert(line.subrange(0, k + 1).last() == board_cell(self.board, r as int, c as int));
                if let Tile::Filled(x) = self.get(r, c) {
                    v.push(x);
                }
                k = k + 1;
            }
            assert(line.subrange(0, 4) =~= line);
            match checked_merge_score(&v) {
                None => {
                    proof {
                        lemma_lines_score_bound(self.board, direction, i as int);
                    }
                    return false;
                },
                Some(gained) => {
                    if total > u64::MAX - gained {
                        proof {
                            lemma_lines_score_bound(self.board, direction, i as int + 1);
                        }
                        return false;
                    }
                    total = total + gained;
                },
            }
            i = i + 1;
        }
        true
    }
}

/// The score of the first `n` lines of a move is never more than that of the whole move.
proof fn lemma_lines_score_bound(board: [[Tile; 4]; 4], dir: Direction, n: int)
    requires
        0 <= n <= 4,
    ensures
        0 <= lines_score(board, dir, n) <= move_score(board, dir),
        n < 4 ==> lines_score(board, dir, n) + merge_score(filled_values(board_line(board, dir, n))) <= move_score(board, dir),
    decreases 4 - n,
{
    lemma_merge_score_nonneg(filled_values(board_line(board, dir, 0)));
    lemma_merge_score_nonneg(filled_values(board_line(board, dir, 1)));
    lemma_merge_score_nonneg(filled_values(board_line(board, dir, 2)));
    lemma_merge_score_nonneg(filled_values(board_line(board, dir, 3)));
    reveal_with_fuel(lines_score, 5);
}

} // verus!
