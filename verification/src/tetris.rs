//! The engine: a board of settled cells, the falling piece, and the
//! operations that a driver calls on them.
//!
//! Every operation is one transition of the state machine in `game`: its
//! contract says that the engine's view after the call is that transition
//! of its view before.

use vstd::prelude::*;
use crate::game::{
    lemma_rotated_wf, lemma_shifted_wf, lemma_spawned_wf, lemma_ticked_wf, Game,
};
use crate::grid::{
    clear_full_rows, empty_grid, grid_view, is_row_full, lemma_cleared_shape, new_grid,
    no_full_row, on_grid, rectangular, row_full, settle, with_piece,
};
use crate::piece::{lemma_cells_in_box, spawn_piece, Piece, PieceView};
use crate::positions::{board_positions, Positions};
use crate::shape::{all_kinds, cells_of, next_rotation, spec_all_kinds, Kind, Position};

pub use crate::game::Direction;

verus! {

/// A game in progress, or over.
#[derive(Debug)]
pub struct Tetris {
    width: u32,
    rows: Vec<Vec<Option<Kind>>>,
    active: Option<Piece>,
    sequence: Vec<Kind>,
    cursor: usize,
}

/// The mathematical piece, if any, that an optional piece stands for.
pub open spec fn piece_view(piece: Option<Piece>) -> Option<PieceView> {
    match piece {
        Some(p) => Some(p@),
        None => None,
    }
}

/// The sequence of kinds that a game is given: the catalogue in its fixed
/// order where none is named.
pub open spec fn sequence_or_catalogue(kinds: Seq<Kind>) -> Seq<Kind> {
    if kinds.len() == 0 {
        spec_all_kinds()
    } else {
        kinds
    }
}

impl View for Tetris {
    type V = Game;

    closed spec fn view(&self) -> Game {
        Game {
            width: self.width as nat,
            settled: grid_view(self.rows@),
            active: piece_view(self.active),
            sequence: self.sequence@,
            cursor: self.cursor as nat,
        }
    }
}

impl Clone for Tetris {
    /// A second game in the same state; the two share nothing.
    fn clone(&self) -> (copy: Tetris)
        ensures
            copy@ == self@,
    {
        let mut rows: Vec<Vec<Option<Kind>>> = Vec::new();
        let mut y: usize = 0;
        while y < self.rows.len()
            invariant
                y <= self.rows.len(),
                rows@.len() == y,
                forall|j: int| 0 <= j < y ==> (#[trigger] rows@[j])@ == self.rows@[j]@,
            decreases self.rows.len() - y,
        {
            rows.push(self.rows[y].clone());
            y += 1;
        }
        assert(grid_view(rows@) =~= grid_view(self.rows@));
        Tetris {
            width: self.width,
            rows,
            active: self.active,
            sequence: self.sequence.clone(),
            cursor: self.cursor,
        }
    }
}

impl Tetris {
    /// The engine's invariant: its state is a well-formed game whose
    /// dimensions fit the machine's integers.
    pub open spec fn wf(&self) -> bool {
        &&& self@.wf()
        &&& self@.width <= u32::MAX
        &&& self@.height() <= u32::MAX
    }

    /// A game on an empty board of the given dimensions, with the kinds
    /// entering in catalogue order, over and over. A board with no columns
    /// or no rows is accepted: no piece can enter it, so its game is over
    /// from the start.
    pub fn new(width: u32, height: u32) -> (game: Tetris)
        ensures
            game.wf(),
            game@ == Game::fresh(width as nat, height as nat),
    {
        Tetris::with_sequence(width, height, Vec::new())
    }

    /// A game on an empty board in which the kinds enter in the order of
    /// `kinds`, over and over; an empty `kinds` stands for the catalogue
    /// order.
    pub fn with_sequence(width: u32, height: u32, kinds: Vec<Kind>) -> (game: Tetris)
        ensures
            game.wf(),
            game@ == Game::start(
                width as nat,
                empty_grid(width as nat, height as nat),
                sequence_or_catalogue(kinds@),
            ),
    {
        let rows = new_grid(width, height);
        let ghost grid = grid_view(rows@);
        proof {
            assert forall|y: int| 0 <= y < grid.len() implies !row_full(#[trigger] grid[y]) by {
                if width > 0 {
                    assert(grid[y][0] is None);
                }
            }
        }
        let sequence = if kinds.len() == 0 {
            all_kinds()
        } else {
            kinds
        };
        let mut game = Tetris { width, rows, active: None, sequence, cursor: 0 };
        game.spawn();
        game
    }

    /// A game that starts on a grid of cells already settled, top row
    /// first, with the kinds entering in the order of `kinds` as in
    /// `with_sequence`. The grid is refused, with `None`, unless every row
    /// has `width` cells, no row is full, and the rows number at most
    /// `u32::MAX`.
    pub fn from_rows(width: u32, rows: Vec<Vec<Option<Kind>>>, kinds: Vec<Kind>) -> (game: Option<
        Tetris,
    >)
        ensures
            game is Some <==> rectangular(grid_view(rows@), width as nat) && no_full_row(
                grid_view(rows@),
            ) && rows@.len() <= u32::MAX,
            game matches Some(g) ==> g.wf() && g@ == Game::start(
                width as nat,
                grid_view(rows@),
                sequence_or_catalogue(kinds@),
            ),
    {
        let ghost grid = grid_view(rows@);
        if rows.len() > u32::MAX as usize {
            return None;
        }
        let mut y: usize = 0;
        while y < rows.len()
            invariant
                y <= rows.len(),
                grid == grid_view(rows@),
                forall|j: int| 0 <= j < y ==> (#[trigger] grid[j]).len() == width,
                forall|j: int| 0 <= j < y ==> !row_full(#[trigger] grid[j]),
            decreases rows.len() - y,
        {
            assert(grid[y as int] == rows@[y as int]@);
            if rows[y].len() != width as usize || is_row_full(&rows[y]) {
                return None;
            }
            y += 1;
        }
        let sequence = if kinds.len() == 0 {
            all_kinds()
        } else {
            kinds
        };
        let mut game = Tetris { width, rows, active: None, sequence, cursor: 0 };
        game.spawn();
        Some(game)
    }

    /// Number of columns.
    pub fn width(&self) -> (width: u32)
        ensures
            width == self@.width,
    {
        self.width
    }

    /// Number of rows.
    pub fn height(&self) -> (height: u32)
        requires
            self.wf(),
        ensures
            height == self@.height(),
    {
        self.rows.len() as u32
    }

    /// Whether the game is over.
    pub fn is_game_over(&self) -> (over: bool)
        ensures
            over == self@.game_over(),
    {
        self.active.is_none()
    }

    /// The falling piece, or `None` once the game is over.
    pub fn active(&self) -> (piece: Option<Piece>)
        ensures
            piece_view(piece) == self@.active,
    {
        self.active
    }

    /// The kind that enters next.
    pub fn next_kind(&self) -> (kind: Kind)
        requires
            self.wf(),
        ensures
            kind == self@.sequence[self@.cursor as int],
    {
        self.sequence[self.cursor]
    }

    /// The settled cell at `position`: the kind that settled there, or
    /// `None` where the cell is empty or lies outside the board. The
    /// falling piece is not looked at.
    pub fn settled_at(&self, position: Position) -> (cell: Option<Kind>)
        requires
            self.wf(),
        ensures
            cell == if self@.in_bounds(position@) {
                self@.settled[position@.1][position@.0]
            } else {
                None
            },
    {
        if position.x < 0 || position.x >= self.width as i64 || position.y < 0 || position.y
            >= self.rows.len() as i64 {
            return None;
        }
        assert(self@.settled[position.y as int].len() == self.width);
        self.rows[position.y as usize][position.x as usize]
    }

    /// What is seen at `position`: the kind of the falling piece where it
    /// covers the cell, else the kind settled there, and `None` where the
    /// cell is empty or lies outside the board.
    pub fn get(&self, position: Position) -> (cell: Option<Kind>)
        requires
            self.wf(),
        ensures
            cell == self@.get(position@),
    {
        if let Some(piece) = self.active {
            proof {
                lemma_cells_in_box(piece@, 0);
                assert(self@.free(piece@.cells()[0]));
            }
            if piece.covers(position) {
                return Some(piece.kind);
            }
        }
        self.settled_at(position)
    }

    /// A cursor over every coordinate of the board, row by row from the
    /// top, each row from the left. It is independent of the game: calling
    /// again starts again.
    pub fn iter_positions(&self) -> (positions: Positions)
        requires
            self.wf(),
        ensures
            positions.wf(),
            positions@ == board_positions(self@.width, self@.height()),
    {
        Positions::new(self.width, self.rows.len() as u32)
    }

    /// The collision rule: whether each cell of `piece` lies on the board
    /// and on no settled cell. The falling piece itself is not an obstacle.
    pub fn fits(&self, piece: &Piece) -> (fits: bool)
        requires
            self.wf(),
            piece@.valid(),
        ensures
            fits == self@.legal(piece@),
    {
        proof {
            lemma_cells_in_box(piece@, 0);
        }
        let height = self.rows.len() as i64;
        if piece.x < -4 || piece.x > self.width as i64 || piece.y < -4 || piece.y > height {
            assert(!self@.free(piece@.cells()[0]));
            return false;
        }
        let cells = piece.cells();
        let mut i: usize = 0;
        while i < 4
            invariant
                i <= 4,
                cells_of(cells@) == piece@.cells(),
                self.wf(),
                height == self.rows@.len(),
                forall|j: int| 0 <= j < i ==> self@.free(#[trigger] piece@.cells()[j]),
            decreases 4 - i,
        {
            assert(cells_of(cells@)[i as int] == cells@[i as int]@);
            let c = cells[i];
            if c.x < 0 || c.x >= self.width as i64 || c.y < 0 || c.y >= height {
                assert(!self@.free(piece@.cells()[i as int]));
                return false;
            }
            assert(self@.settled[c.y as int].len() == self.width);
            if self.rows[c.y as usize][c.x as usize].is_some() {
                assert(!self@.free(piece@.cells()[i as int]));
                return false;
            }
            assert(self@.free(piece@.cells()[i as int]));
            i += 1;
        }
        true
    }

    /// Moves the falling piece one column to the left or right if the new
    /// placement is legal; otherwise, and once the game is over, changes
    /// nothing.
    pub fn shift_current_shape(&mut self, direction: Direction)
        requires
            old(self).wf(),
        ensures
            final(self).wf(),
            final(self)@ == old(self)@.shifted(direction),
    {
        proof {
            lemma_shifted_wf(self@, direction);
        }
        if let Some(piece) = self.active {
            proof {
                lemma_cells_in_box(piece@, 0);
                assert(self@.free(piece@.cells()[0]));
            }
            let moved = Piece {
                x: match direction {
                    Direction::Left => piece.x - 1,
                    Direction::Right => piece.x + 1,
                },
                ..piece
            };
            assert(moved@ == piece@.moved(direction.dx(), 0));
            if self.fits(&moved) {
                self.active = Some(moved);
            }
        }
    }

    /// Turns the falling piece to the next orientation of its kind, in
    /// place, if the new placement is legal; otherwise, and once the game
    /// is over, changes nothing.
    pub fn rotate(&mut self)
        requires
            old(self).wf(),
        ensures
            final(self).wf(),
            final(self)@ == old(self)@.rotated(),
    {
        proof {
            lemma_rotated_wf(self@);
        }
        if let Some(piece) = self.active {
            let turned = Piece { rotation: next_rotation(piece.kind, piece.rotation), ..piece };
            assert(turned@ == piece@.turned());
            if self.fits(&turned) {
                self.active = Some(turned);
            }
        }
    }

    /// One step of gravity. The falling piece moves one row down if that
    /// placement is legal. If not, it locks: its cells are settled, every
    /// full row is removed with the rows above sinking, and the next piece
    /// enters, or the game is over if that piece's cells are not all free.
    /// Once the game is over, changes nothing.
    pub fn tick(&mut self)
        requires
            old(self).wf(),
        ensures
            final(self).wf(),
            final(self)@ == old(self)@.ticked(),
    {
        proof {
            lemma_ticked_wf(self@);
        }
        if let Some(piece) = self.active {
            proof {
                lemma_cells_in_box(piece@, 0);
                assert(self@.free(piece@.cells()[0]));
            }
            let lower = Piece { y: piece.y + 1, ..piece };
            assert(lower@ == piece@.moved(0, 1));
            if self.fits(&lower) {
                self.active = Some(lower);
            } else {
                self.lock(&piece);
            }
        }
    }

    /// Settles `piece`, removes the full rows and lets the next piece
    /// enter.
    fn lock(&mut self, piece: &Piece)
        requires
            old(self).wf(),
            old(self).active == Some(*piece),
        ensures
            final(self).wf(),
            final(self)@ == old(self)@.locked(piece@),
    {
        let ghost before = self@;
        proof {
            lemma_cells_in_box(piece@, 0);
            assert(before.free(piece@.cells()[0]));
            assert forall|i: int| 0 <= i < 4 implies on_grid(
                before.settled,
                #[trigger] piece@.cells()[i],
            ) by {
                assert(before.free(piece@.cells()[i]));
            }
        }
        settle(&mut self.rows, piece);
        self.rows = clear_full_rows(&self.rows, self.width);
        self.active = None;
        proof {
            let written = with_piece(before.settled, piece@);
            assert(rectangular(written, before.width));
            lemma_cleared_shape(written, before.width);
        }
        self.spawn();
    }

    /// Lets the next kind of the sequence enter at the top, or ends the
    /// game if its cells are not all free.
    fn spawn(&mut self)
        requires
            old(self).wf(),
            old(self).active is None,
        ensures
            final(self)@ == old(self)@.spawned(),
            final(self).wf(),
    {
        proof {
            lemma_spawned_wf(self@);
        }
        let piece = spawn_piece(self.sequence[self.cursor], self.width);
        let count = self.sequence.len();
        let fits = self.fits(&piece);
        self.cursor = if self.cursor + 1 < count {
            self.cursor + 1
        } else {
            0
        };
        if fits {
            self.active = Some(piece);
        }
    }
}

} // verus!
