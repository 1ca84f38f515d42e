use vstd::prelude::*;
use rand::StdRng;
use crate::display::{Colour, ShapeFill};
use crate::graphics::{rect_painted, Sprite};
use crate::input::{ButtonInput, OSInput};
use crate::random::{choose_copy, seeded_rng};
use crate::real_time::{RealTimeResult, RealTimeState};
use crate::os::ApplicationInfo;

verus! {

/// The width of the playfield, in tiles.
pub const PLAYFIELD_WIDTH: usize = 10;

/// The height of the playfield, in tiles.
pub const PLAYFIELD_HEIGHT: usize = 16;

/// A cell of the playfield.
#[derive(PartialEq, Eq, Clone, Copy, Debug, Structural)]
pub enum Tile {
    Filled(Colour),
    Blank,
}

/// The shapes a falling piece can take.
#[derive(PartialEq, Eq, Clone, Copy, Debug, Structural)]
pub enum TetrominoShape {
    T,
    I,
    Z,
}

/// The events of the game.
#[derive(PartialEq, Eq, Copy, Clone, Debug, Structural)]
pub enum TetrisEvent {
    Left,
    Right,
    Slam,
    TickDown,
}

/// The cells a shape covers, row by row from the top.
pub open spec fn shape_mask(shape: TetrominoShape) -> Seq<Seq<bool>> {
    match shape {
        TetrominoShape::T => seq![seq![false, true, false], seq![true, true, true]],
        TetrominoShape::I => seq![seq![true], seq![true], seq![true], seq![true]],
        TetrominoShape::Z => seq![seq![true, true, false], seq![false, true, true]],
    }
}

/// The width of a shape, in tiles.
pub open spec fn shape_width(shape: TetrominoShape) -> int {
    shape_mask(shape)[0].len() as int
}

/// The height of a shape, in tiles.
pub open spec fn shape_height(shape: TetrominoShape) -> int {
    shape_mask(shape).len() as int
}

/// The falling piece: a shape and colour placed with its top-left corner at a cell.
#[derive(PartialEq, Eq, Clone, Copy, Debug, Structural)]
pub struct Tetromino {
    pub shape: TetrominoShape,
    pub colour: Colour,
    pub origin_x: usize,
    pub origin_y: usize,
}

/// Whether the piece lies within the playfield.
pub open spec fn piece_fits(t: Tetromino) -> bool {
    &&& t.origin_x + shape_width(t.shape) <= PLAYFIELD_WIDTH
    &&& t.origin_y + shape_height(t.shape) <= PLAYFIELD_HEIGHT
}

/// Whether the piece covers the cell `(x, y)`.
pub open spec fn covers(t: Tetromino, x: int, y: int) -> bool {
    &&& t.origin_x <= x < t.origin_x + shape_width(t.shape)
    &&& t.origin_y <= y < t.origin_y + shape_height(t.shape)
    &&& shape_mask(t.shape)[y - t.origin_y][x - t.origin_x]
}

/// The tile at `(x, y)` of a playfield stored row by row.
pub open spec fn tile(pf: Seq<Tile>, x: int, y: int) -> Tile {
    pf[y * PLAYFIELD_WIDTH + x]
}

/// Whether the piece rests on the floor or on a filled cell right below one of its cells.
pub open spec fn touching(t: Tetromino, pf: Seq<Tile>) -> bool {
    ||| t.origin_y + shape_height(t.shape) >= PLAYFIELD_HEIGHT
    ||| exists|x: int, y: int| covers(t, x, y) && y + 1 < PLAYFIELD_HEIGHT && #[trigger] tile(pf, x, y + 1) is Filled
}

/// The playfield with the piece's cells filled in its colour.
pub open spec fn settled(pf: Seq<Tile>, t: Tetromino) -> Seq<Tile> {
    Seq::new(
        pf.len(),
        |i: int| if covers(t, i % 10, i / 10) { Tile::Filled(t.colour) } else { pf[i] },
    )
}

/// The piece placed back at the top of the playfield.
pub open spec fn respawned(t: Tetromino) -> Tetromino {
    Tetromino { origin_x: 3, origin_y: 0, ..t }
}

/// The piece one row lower.
pub open spec fn lowered(t: Tetromino) -> Tetromino {
    Tetromino { origin_y: (t.origin_y + 1) as usize, ..t }
}

/// A piece inside the playfield touches exactly when it cannot fall one row: moved one row down
/// it would leave the playfield through the floor, or cover a filled cell.
pub proof fn lemma_touching_iff_blocked_below(t: Tetromino, pf: Seq<Tile>)
    requires
        piece_fits(t),
    ensures
        touching(t, pf) <==> (t.origin_y + 1 + shape_height(t.shape) > PLAYFIELD_HEIGHT
            || exists|x: int, y: int| covers(lowered(t), x, y) && #[trigger] tile(pf, x, y) is Filled),
{
    let l = lowered(t);
    if touching(t, pf) && t.origin_y + 1 + shape_height(t.shape) <= PLAYFIELD_HEIGHT {
        let (x, y) = choose|x: int, y: int| covers(t, x, y) && y + 1 < PLAYFIELD_HEIGHT && #[trigger] tile(pf, x, y + 1) is Filled;
        assert(covers(l, x, y + 1));
        assert(tile(pf, x, y + 1) is Filled);
    }
    if exists|x: int, y: int| covers(l, x, y) && #[trigger] tile(pf, x, y) is Filled {
        let (x, y) = choose|x: int, y: int| covers(l, x, y) && #[trigger] tile(pf, x, y) is Filled;
        if t.origin_y + 1 + shape_height(t.shape) <= PLAYFIELD_HEIGHT {
            assert(covers(t, x, y - 1));
            assert(tile(pf, x, (y - 1) + 1) is Filled);
        }
    }
}

proof fn lemma_cell_index(x: int, y: int)
    requires
        0 <= x < 10,
        0 <= y,
    ensures
        (y * 10 + x) % 10 == x,
        (y * 10 + x) / 10 == y,
{
    assert((y * 10 + x) % 10 == x && (y * 10 + x) / 10 == y) by (nonlinear_arith)
        requires 0 <= x < 10, 0 <= y;
}

impl Tetromino {
    /// The cells the piece covers, row by row from the top.
    pub fn mask(&self) -> (r: Vec<Vec<bool>>)
        ensures
            r@.len() == shape_mask(self.shape).len(),
            forall|i: int| 0 <= i < r@.len() ==> #[trigger] r@[i]@ == shape_mask(self.shape)[i],
    {
        match self.shape {
            TetrominoShape::T => {
                let r = vec![vec![false, true, false], vec![true, true, true]];
                assert(r@[0]@ == seq![false, true, false]);
                assert(r@[1]@ == seq![true, true, true]);
                r
            },
            TetrominoShape::I => {
                let r = vec![vec![true], vec![true], vec![true], vec![true]];
                assert(r@[0]@ == seq![true]);
                r
            },
            TetrominoShape::Z => {
                let r = vec![vec![true, true, false], vec![false, true, true]];
                assert(r@[0]@ == seq![true, true, false]);
                assert(r@[1]@ == seq![false, true, true]);
                r
            },
        }
    }

    /// The width of the piece, in tiles.
    pub fn width(&self) -> (r: usize)
        ensures
            r == shape_width(self.shape),
    {
        let m = self.mask();
        m[0].len()
    }

    /// The height of the piece, in tiles.
    pub fn height(&self) -> (r: usize)
        ensures
            r == shape_height(self.shape),
    {
        self.mask().len()
    }

    /// Whether the piece rests on the floor or on a filled cell. The piece must lie within the
    /// playfield's width.
    pub fn touching_floor(&self, playfield: &Vec<Tile>) -> (r: bool)
        requires
            self.origin_x + shape_width(self.shape) <= PLAYFIELD_WIDTH,
            self.origin_y + shape_height(self.shape) <= usize::MAX,
            playfield@.len() == PLAYFIELD_WIDTH * PLAYFIELD_HEIGHT,
        ensures
            r == touching(*self, playfield@),
    {
        let w = self.width();
        let h = self.height();
        if self.origin_y + h >= PLAYFIELD_HEIGHT {
            return true;
        }
        let mask = self.mask();
        let mut x = self.origin_x;
        while x < self.origin_x + w
            invariant
                w == shape_width(self.shape),
                h == shape_height(self.shape),
                self.origin_x <= x <= self.origin_x + w,
                self.origin_x + w <= PLAYFIELD_WIDTH,
                self.origin_y + h < PLAYFIELD_HEIGHT,
                mask@.len() == shape_mask(self.shape).len(),
                forall|i: int| 0 <= i < mask@.len() ==> #[trigger] mask@[i]@ == shape_mask(self.shape)[i],
                playfield@.len() == PLAYFIELD_WIDTH * PLAYFIELD_HEIGHT,
                forall|px: int, py: int|
                    px < x && covers(*self, px, py) && py + 1 < PLAYFIELD_HEIGHT ==> !(#[trigger] tile(playfield@, px, py + 1) is Filled),
            decreases self.origin_x + w - x,
        {
            let mut y = self.origin_y;
            while y < self.origin_y + h
                invariant
                    w == shape_width(self.shape),
                    h == shape_height(self.shape),
                    self.origin_x <= x < self.origin_x + w,
                    self.origin_y <= y <= self.origin_y + h,
                    self.origin_x + w <= PLAYFIELD_WIDTH,
                    self.origin_y + h < PLAYFIELD_HEIGHT,
                    mask@.len() == shape_mask(self.shape).len(),
                    forall|i: int| 0 <= i < mask@.len() ==> #[trigger] mask@[i]@ == shape_mask(self.shape)[i],
                    playfield@.len() == PLAYFIELD_WIDTH * PLAYFIELD_HEIGHT,
                    forall|px: int, py: int|
                        (px < x || (px == x && py < y)) && covers(*self, px, py) && py + 1 < PLAYFIELD_HEIGHT
                            ==> !(#[trigger] tile(playfield@, px, py + 1) is Filled),
                decreases self.origin_y + h - y,
            {
                let row = &mask[y - self.origin_y];
                assert(row@ == shape_mask(self.shape)[y - self.origin_y]);
                if row[x - self.origin_x] && y + 1 < PLAYFIELD_HEIGHT {
                    let t = playfield[(y + 1) * PLAYFIELD_WIDTH + x];
                    if let Tile::Filled(_) = t {
                        assert(covers(*self, x as int, y as int));
                        assert(tile(playfield@, x as int, y + 1) is Filled);
                        return true;
                    }
                }
                y = y + 1;
            }
            x = x + 1;
        }
        false
    }

    /// Fills the piece's cells of the playfield in its colour. The piece must lie within the
    /// playfield.
    pub fn copy_to_playfield(&self, playfield: &mut Vec<Tile>)
        requires
            piece_fits(*self),
            old(playfield)@.len() == PLAYFIELD_WIDTH * PLAYFIELD_HEIGHT,
        ensures
            final(playfield)@ == settled(old(playfield)@, *self),
    {
        let w = self.width();
        let h = self.height();
        let mask = self.mask();
        let ghost start = playfield@;
        let mut x = self.origin_x;
        while x < self.origin_x + w
            invariant
                w == shape_width(self.shape),
                h == shape_height(self.shape),
                piece_fits(*self),
                self.origin_x <= x <= self.origin_x + w,
                mask@.len() == shape_mask(self.shape).len(),
                forall|i: int| 0 <= i < mask@.len() ==> #[trigger] mask@[i]@ == shape_mask(self.shape)[i],
                playfield@.len() == start.len(),
                start.len() == PLAYFIELD_WIDTH * PLAYFIELD_HEIGHT,
                forall|i: int|
                    0 <= i < start.len() ==> #[trigger] playfield@[i] == if covers(*self, i % 10, i / 10) && i % 10 < x {
                        Tile::Filled(self.colour)
                    } else {
                        start[i]
                    },
            decreases self.origin_x + w - x,
        {
            let mut y = self.origin_y;
            while y < self.origin_y + h
                invariant
                    w == shape_width(self.shape),
                    h == shape_height(self.shape),
                    piece_fits(*self),
                    self.origin_x <= x < self.origin_x + w,
                    self.origin_y <= y <= self.origin_y + h,
                    mask@.len() == shape_mask(self.shape).len(),
                    forall|i: int| 0 <= i < mask@.len() ==> #[trigger] mask@[i]@ == shape_mask(self.shape)[i],
                    playfield@.len() == start.len(),
                    start.len() == PLAYFIELD_WIDTH * PLAYFIELD_HEIGHT,
                    forall|i: int|
                        0 <= i < start.len() ==> #[trigger] playfield@[i] == if covers(*self, i % 10, i / 10) && (i % 10 < x
                            || (i % 10 == x && i / 10 < y)) {
                            Tile::Filled(self.colour)
                        } else {
                            start[i]
                        },
                decreases self.origin_y + h - y,
            {
                let row = &mask[y - self.origin_y];
                assert(row@ == shape_mask(self.shape)[y - self.origin_y]);
                proof {
                    lemma_cell_index(x as int, y as int);
                }
                if row[x - self.origin_x] {
                    let i = y * PLAYFIELD_WIDTH + x;
                    playfield.set(i, Tile::Filled(self.colour));
                }
                y = y + 1;
            }
            x = x + 1;
        }
        assert(playfield@ =~= settled(start, *self));
    }
}

/// A falling-block game driven by timed events and key presses.
pub struct TetrisApplication {
    pub real_time_state: RealTimeState<TetrisEvent>,
    pub playfield: Vec<Tile>,
    pub tetromino: Option<Tetromino>,
    pub rng: StdRng,
}

/// The colours a new piece can take.
pub open spec fn piece_colours() -> Seq<Colour> {
    seq![Colour(0x0E), Colour(0xCC), Colour(0x09), Colour(0xFF)]
}

impl TetrisApplication {
    /// How the launcher lists this application: as "Tetris", shown.
    pub fn info() -> (r: ApplicationInfo)
        ensures
            r.name@ == "Tetris"@,
            r.visible,
    {
        ApplicationInfo { name: "Tetris".to_owned(), visible: true }
    }

    /// The playfield is complete and the falling piece lies within it.
    pub open spec fn wf(&self) -> bool {
        &&& self.playfield@.len() == PLAYFIELD_WIDTH * PLAYFIELD_HEIGHT
        &&& self.tetromino matches Some(t) ==> piece_fits(t)
    }

    /// The game at time `now`: an empty playfield, an orange T piece at the top, the arrow keys
    /// bound, and the first step down due a quarter second later.
    pub fn new(now: u32) -> (a: Self)
        requires
            now + 250 <= u32::MAX,
        ensures
            a.wf(),
            forall|i: int| 0 <= i < a.playfield@.len() ==> a.playfield@[i] == Tile::Blank,
            a.tetromino == Some(Tetromino { origin_x: 3, origin_y: 0, shape: TetrominoShape::T, colour: Colour(0xCC) }),
            a.real_time_state.key_events@ == seq![
                (OSInput::Button(ButtonInput::MoveLeft), TetrisEvent::Left),
                (OSInput::Button(ButtonInput::MoveRight), TetrisEvent::Right),
                (OSInput::Button(ButtonInput::MoveDown), TetrisEvent::Slam),
            ],
            a.real_time_state.time_scheduled_events@ == seq![((now + 250) as u32, TetrisEvent::TickDown)],
    {
        let seed: [usize; 4] = [5, 6, 7, 8];
        let mut a = TetrisApplication {
            real_time_state: RealTimeState::new(),
            playfield: vec![Tile::Blank; PLAYFIELD_WIDTH * PLAYFIELD_HEIGHT],
            tetromino: Some(Tetromino { origin_x: 3, origin_y: 0, shape: TetrominoShape::T, colour: Colour::orange() }),
            rng: seeded_rng(seed.as_slice()),
        };
        a.real_time_state.on_input(OSInput::Button(ButtonInput::MoveLeft), TetrisEvent::Left);
        a.real_time_state.on_input(OSInput::Button(ButtonInput::MoveRight), TetrisEvent::Right);
        a.real_time_state.on_input(OSInput::Button(ButtonInput::MoveDown), TetrisEvent::Slam);
        a.real_time_state.schedule(now, 250, TetrisEvent::TickDown);
        a
    }

    /// Handles an event at time `now`. Left and right move the piece a column (the edges are
    /// not checked, so the piece must not be moved off the playfield's sides); slamming is not
    /// implemented. A step down settles a piece that is resting, brings it back to the top, moves
    /// it one row down and, if it then rests, settles it too and brings back a new piece of a
    /// random shape and colour; the next step down is then scheduled.
    pub fn on_event(&mut self, event: TetrisEvent, now: u32) -> (r: RealTimeResult)
        requires
            old(self).wf(),
            event != TetrisEvent::Slam,
            event == TetrisEvent::Left ==> (old(self).tetromino matches Some(t) ==> t.origin_x >= 1),
            event == TetrisEvent::Right ==> (old(self).tetromino matches Some(t) ==> t.origin_x < usize::MAX),
            event == TetrisEvent::TickDown ==> now + 250 <= u32::MAX,
        ensures
            final(self).real_time_state.key_events@ == old(self).real_time_state.key_events@,
            event == TetrisEvent::Left || event == TetrisEvent::Right ==> {
                &&& final(self).playfield@ == old(self).playfield@
                &&& final(self).real_time_state.time_scheduled_events@ == old(self).real_time_state.time_scheduled_events@
                &&& match old(self).tetromino {
                    Some(t) => r == RealTimeResult::Redraw && final(self).tetromino == Some(Tetromino {
                        origin_x: (if event == TetrisEvent::Left { t.origin_x - 1 } else { t.origin_x + 1 }) as usize,
                        ..t
                    }),
                    None => r == RealTimeResult::NoAction && final(self).tetromino is None,
                }
            },
            event == TetrisEvent::TickDown ==> {
                &&& r == RealTimeResult::Redraw
                &&& final(self).wf()
                &&& final(self).real_time_state.time_scheduled_events@ == old(self).real_time_state.time_scheduled_events@.push(
                    ((now + 250) as u32, TetrisEvent::TickDown),
                )
                &&& match old(self).tetromino {
                    None => final(self).tetromino is None && final(self).playfield@ == old(self).playfield@,
                    Some(t) => {
                        let pf1 = if touching(t, old(self).playfield@) { settled(old(self).playfield@, t) } else { old(self).playfield@ };
                        let t1 = if touching(t, old(self).playfield@) { respawned(t) } else { t };
                        let t2 = lowered(t1);
                        if touching(t2, pf1) {
                            &&& final(self).playfield@ == settled(pf1, t2)
                            &&& final(self).tetromino matches Some(n) && n.origin_x == 3 && n.origin_y == 0
                                && piece_colours().contains(n.colour)
                        } else {
                            &&& final(self).playfield@ == pf1
                            &&& final(self).tetromino == Some(t2)
                        }
                    },
                }
            },
    {
        match event {
            TetrisEvent::Left => {
                match self.tetromino {
                    Some(t) => {
                        self.tetromino = Some(Tetromino { origin_x: t.origin_x - 1, ..t });
                        RealTimeResult::Redraw
                    },
                    None => RealTimeResult::NoAction,
                }
            },
            TetrisEvent::Right => {
                match self.tetromino {
                    Some(t) => {
                        self.tetromino = Some(Tetromino { origin_x: t.origin_x + 1, ..t });
                        RealTimeResult::Redraw
                    },
                    None => RealTimeResult::NoAction,
                }
            },
            TetrisEvent::Slam => vstd::pervasive::unreached(),
            TetrisEvent::TickDown => {
                if let Some(t0) = self.tetromino {
                    let mut t = t0;
                    if t.touching_floor(&self.playfield) {
                        t.copy_to_playfield(&mut self.playfield);
                        t.origin_y = 0;
                        t.origin_x = 3;
                    }
                    t.origin_y = t.origin_y + 1;
                    if t.touching_floor(&self.playfield) {
                        t.copy_to_playfield(&mut self.playfield);
                        t.origin_y = 0;
                        t.origin_x = 3;
                        let colours = [Colour::blue(), Colour::orange(), Colour::dark_blue(), Colour::white()];
                        let shapes = [TetrominoShape::I, TetrominoShape::T, TetrominoShape::Z];
                        assert(colours@ == piece_colours());
                        t.colour = match choose_copy(&mut self.rng, colours.as_slice()) {
                            Some(c) => c,
                            None => t.colour,
                        };
                        t.shape = match choose_copy(&mut self.rng, shapes.as_slice()) {
                            Some(s) => s,
                            None => t.shape,
                        };
                    }
                    self.tetromino = Some(t);
                }
                self.real_time_state.schedule(now, 250, TetrisEvent::TickDown);
                RealTimeResult::Redraw
            },
        }
    }
}

/// The colour a playfield cell is drawn in: its own when filled, grey when blank.
pub open spec fn tile_colour(t: Tile) -> Colour {
    match t {
        Tile::Filled(c) => c,
        Tile::Blank => Colour(0x24),
    }
}

/// The pixels after the playfield's first `k` cells, row by row, are drawn as 20 by 20 squares in
/// their colours, on a display `width` by `height`.
pub open spec fn cells_drawn(data: Seq<Colour>, width: int, height: int, pf: Seq<Tile>, k: int) -> Seq<Colour>
    decreases k,
{
    if k <= 0 {
        data
    } else {
        let i = k - 1;
        rect_painted(
            cells_drawn(data, width, height, pf, k - 1),
            width,
            height,
            (i % 10) * 20,
            (i / 10) * 20,
            20,
            20,
            tile_colour(pf[i]),
            true,
        )
    }
}

/// The pixels after the first `n` cells of row `dy` of the piece's shape are drawn: each cell the
/// shape covers as a 20 by 20 square in the piece's colour.
pub open spec fn piece_row_drawn(data: Seq<Colour>, width: int, height: int, t: Tetromino, dy: int, n: int) -> Seq<Colour>
    decreases n,
{
    if n <= 0 {
        data
    } else {
        let before = piece_row_drawn(data, width, height, t, dy, n - 1);
        if shape_mask(t.shape)[dy][n - 1] {
            rect_painted(before, width, height, (t.origin_x + n - 1) * 20, (t.origin_y + dy) * 20, 20, 20, t.colour, true)
        } else {
            before
        }
    }
}

/// The pixels after the first `m` rows of the piece's shape are drawn.
pub open spec fn piece_drawn(data: Seq<Colour>, width: int, height: int, t: Tetromino, m: int) -> Seq<Colour>
    decreases m,
{
    if m <= 0 {
        data
    } else {
        piece_row_drawn(
            piece_drawn(data, width, height, t, m - 1),
            width,
            height,
            t,
            m - 1,
            shape_mask(t.shape)[m - 1].len() as int,
        )
    }
}

/// The game's screen on a display `width` by `height`: black, then the playfield's cells, then
/// the falling piece.
pub open spec fn tetris_screen(width: int, height: int, pf: Seq<Tile>, piece: Option<Tetromino>) -> Seq<Colour> {
    let cells = cells_drawn(Seq::new((width * height) as nat, |i: int| Colour(0)), width, height, pf, 160);
    match piece {
        Some(t) => piece_drawn(cells, width, height, t, shape_height(t.shape)),
        None => cells,
    }
}

impl TetrisApplication {
    /// Draws the game onto `sprite`: a black screen, the playfield as 20 by 20 squares (filled
    /// cells in their colour, blank ones grey), and the falling piece over it in its colour.
    pub fn draw(&self, sprite: &mut Sprite)
        requires
            self.wf(),
            old(sprite).wf(),
            old(sprite).width >= 180,
            old(sprite).height >= 300,
        ensures
            final(sprite).wf(),
            old(sprite).same_frame(&*final(sprite)),
            final(sprite).data@ == tetris_screen(
                old(sprite).width as int,
                old(sprite).height as int,
                self.playfield@,
                self.tetromino,
            ),
    {
        let ghost w = sprite.width as int;
        let ghost h = sprite.height as int;
        sprite.fill(Colour::black());
        let ghost blank = sprite.data@;
        assert(blank =~= Seq::new((w * h) as nat, |i: int| Colour(0)));
        let mut i: usize = 0;
        while i < self.playfield.len()
            invariant
                self.playfield@.len() == 160,
                i <= 160,
                sprite.wf(),
                old(sprite).same_frame(&*sprite),
                w == sprite.width,
                h == sprite.height,
                w >= 180,
                h >= 300,
                sprite.data@ == cells_drawn(blank, w, h, self.playfield@, i as int),
            decreases 160 - i,
        {
            let colour = match self.playfield[i] {
                Tile::Filled(c) => c,
                Tile::Blank => Colour::grey(),
            };
            assert(i / 10 < 16 && i % 10 < 10) by (nonlinear_arith)
                requires i < 160;
            let x = ((i % 10) * 20) as i16;
            let y = ((i / 10) * 20) as i16;
            sprite.draw_rect(x, y, 20, 20, colour, ShapeFill::Filled, 0);
            i = i + 1;
        }
        let ghost cells = sprite.data@;
        if let Some(t) = self.tetromino {
            let mask = t.mask();
            let mut dy: usize = 0;
            while dy < mask.len()
                invariant
                    mask@.len() == shape_mask(t.shape).len(),
                    forall|j: int| 0 <= j < mask@.len() ==> #[trigger] mask@[j]@ == shape_mask(t.shape)[j],
                    piece_fits(t),
                    dy <= mask@.len(),
                    sprite.wf(),
                    old(sprite).same_frame(&*sprite),
                    w == sprite.width,
                    h == sprite.height,
                    w >= 180,
                    h >= 300,
                    sprite.data@ == piece_drawn(cells, w, h, t, dy as int),
                decreases mask@.len() - dy,
            {
                let ghost row_start = sprite.data@;
                assert(shape_mask(t.shape)[dy as int].len() == shape_width(t.shape));
                let mut dx: usize = 0;
                while dx < mask[dy].len()
                    invariant
                        mask@.len() == shape_mask(t.shape).len(),
                        forall|j: int| 0 <= j < mask@.len() ==> #[trigger] mask@[j]@ == shape_mask(t.shape)[j],
                        shape_mask(t.shape)[dy as int].len() == shape_width(t.shape),
                        piece_fits(t),
                        dy < mask@.len(),
                        dx <= mask@[dy as int]@.len(),
                        sprite.wf(),
                        old(sprite).same_frame(&*sprite),
                        w == sprite.width,
                        h == sprite.height,
                        w >= 180,
                        h >= 300,
                        row_start == piece_drawn(cells, w, h, t, dy as int),
                        sprite.data@ == piece_row_drawn(row_start, w, h, t, dy as int, dx as int),
                    decreases mask@[dy as int]@.len() - dx,
                {
                    if mask[dy][dx] {
                        let x = ((t.origin_x + dx) * 20) as i16;
                        let y = ((t.origin_y + dy) * 20) as i16;
                        sprite.draw_rect(x, y, 20, 20, t.colour, ShapeFill::Filled, 0);
                    }
                    dx = dx + 1;
                }
                dy = dy + 1;
            }
        }
    }
}

} // verus!
