//! The game as a mathematical state machine.
//!
//! A `Game` is the state that the engine stands for; `shifted`, `rotated`
//! and `ticked` are its transitions. The executable engine is proved to
//! follow them step by step, and the laws of the game are proved here, of
//! every well-formed state.

use vstd::prelude::*;
use crate::grid::{
    cleared, empty_grid, lemma_cleared_shape, lemma_cleared_without_full_row, no_full_row,
    rectangular, row_full, with_piece, GridView,
};
use crate::piece::{spawn_placement, PieceView};
use crate::shape::{spec_all_kinds, spec_rotation_count, Kind};

verus! {

/// A sideways move of the falling piece.
#[derive(Clone, Copy, Debug, PartialEq, Eq, Structural, Hash)]
pub enum Direction {
    Left,
    Right,
}

impl Direction {
    /// The change of column that the move asks for.
    pub open spec fn dx(self) -> int {
        match self {
            Direction::Left => -1,
            Direction::Right => 1,
        }
    }

    /// The move that undoes this one.
    pub open spec fn opposite(self) -> Direction {
        match self {
            Direction::Left => Direction::Right,
            Direction::Right => Direction::Left,
        }
    }
}

/// The state of a game.
///
/// `settled` holds the cells of the pieces that have locked, top row first.
/// `active` is the falling piece; the game is over exactly when there is
/// none. Pieces enter in the order of `sequence`, repeated without end;
/// `cursor` is the index of the kind that enters next.
pub struct Game {
    pub width: nat,
    pub settled: GridView,
    pub active: Option<PieceView>,
    pub sequence: Seq<Kind>,
    pub cursor: nat,
}

impl Game {
    /// Number of rows.
    pub open spec fn height(self) -> nat {
        self.settled.len()
    }

    /// The cell lies on the board.
    pub open spec fn in_bounds(self, c: (int, int)) -> bool {
        0 <= c.0 < self.width && 0 <= c.1 < self.height()
    }

    /// The cell lies on the board and no settled piece occupies it.
    pub open spec fn free(self, c: (int, int)) -> bool {
        self.in_bounds(c) && self.settled[c.1][c.0] is None
    }

    /// The collision rule: a placement is legal when each of its cells lies
    /// on the board and on no settled cell.
    pub open spec fn legal(self, piece: PieceView) -> bool {
        forall|i: int| 0 <= i < 4 ==> self.free(#[trigger] piece.cells()[i])
    }

    /// The game is over: no piece is falling.
    pub open spec fn game_over(self) -> bool {
        self.active is None
    }

    /// The invariant of every reachable state: the grid is a rectangle
    /// without a full row, the falling piece has a valid orientation and
    /// lies on the board clear of every settled cell, and the cursor points
    /// into a non-empty sequence.
    pub open spec fn wf(self) -> bool {
        &&& rectangular(self.settled, self.width)
        &&& no_full_row(self.settled)
        &&& self.cursor < self.sequence.len()
        &&& self.active matches Some(piece) ==> piece.valid() && self.legal(piece)
    }

    /// What is seen at a cell: the falling piece where it covers the cell,
    /// else the settled cell, and nothing outside the board.
    pub open spec fn get(self, c: (int, int)) -> Option<Kind> {
        if self.active is Some && self.active->0.covers(c) {
            Some(self.active->0.kind)
        } else if self.in_bounds(c) {
            self.settled[c.1][c.0]
        } else {
            None
        }
    }

    /// The state with the next kind of the sequence entering at the top. If
    /// its cells are not all free, no piece enters and the game is over.
    pub open spec fn spawned(self) -> Game {
        let piece = spawn_placement(self.sequence[self.cursor as int], self.width);
        Game {
            active: if self.legal(piece) {
                Some(piece)
            } else {
                None
            },
            cursor: if self.cursor + 1 < self.sequence.len() {
                self.cursor + 1
            } else {
                0
            },
            ..self
        }
    }

    /// The first state of a game on the given grid.
    pub open spec fn start(width: nat, settled: GridView, sequence: Seq<Kind>) -> Game {
        (Game { width, settled, active: None, sequence, cursor: 0 }).spawned()
    }

    /// The first state of a game on an empty board, with the kinds entering
    /// in catalogue order.
    pub open spec fn fresh(width: nat, height: nat) -> Game {
        Game::start(width, empty_grid(width, height), spec_all_kinds())
    }

    /// The state after a request to move the falling piece one column
    /// sideways: moved if the new placement is legal, unchanged if not or if
    /// the game is over.
    pub open spec fn shifted(self, direction: Direction) -> Game {
        match self.active {
            Some(piece) if self.legal(piece.moved(direction.dx(), 0)) => Game {
                active: Some(piece.moved(direction.dx(), 0)),
                ..self
            },
            _ => self,
        }
    }

    /// The state after a request to turn the falling piece: turned in place
    /// if the new placement is legal, unchanged if not or if the game is
    /// over.
    pub open spec fn rotated(self) -> Game {
        match self.active {
            Some(piece) if self.legal(piece.turned()) => Game {
                active: Some(piece.turned()),
                ..self
            },
            _ => self,
        }
    }

    /// The state after the falling piece `piece` locks: its cells are
    /// settled, the full rows are removed, and the next piece enters.
    pub open spec fn locked(self, piece: PieceView) -> Game {
        (Game {
            settled: cleared(with_piece(self.settled, piece), self.width),
            active: None,
            ..self
        }).spawned()
    }

    /// The state after one step of gravity: the falling piece one row lower
    /// if that placement is legal, locked where it is if not, and no change
    /// once the game is over.
    pub open spec fn ticked(self) -> Game {
        match self.active {
            Some(piece) => if self.legal(piece.moved(0, 1)) {
                Game { active: Some(piece.moved(0, 1)), ..self }
            } else {
                self.locked(piece)
            },
            None => self,
        }
    }
}

/// A state without a falling piece, given a rectangular grid without a full
/// row and a cursor into its sequence, is well formed once the next piece
/// has entered or failed to enter.
pub proof fn lemma_spawned_wf(g: Game)
    requires
        rectangular(g.settled, g.width),
        no_full_row(g.settled),
        g.cursor < g.sequence.len(),
    ensures
        g.spawned().wf(),
        g.spawned().width == g.width,
        g.spawned().settled == g.settled,
        g.spawned().sequence == g.sequence,
{
    let piece = spawn_placement(g.sequence[g.cursor as int], g.width);
    let next = g.spawned();
    if g.legal(piece) {
        assert forall|i: int| 0 <= i < 4 implies next.free(#[trigger] piece.cells()[i]) by {
            assert(g.free(piece.cells()[i]));
        }
    }
}

/// A game started on a rectangular grid without a full row, with a
/// non-empty sequence of kinds, starts well formed.
pub proof fn lemma_start_wf(width: nat, settled: GridView, sequence: Seq<Kind>)
    requires
        rectangular(settled, width),
        no_full_row(settled),
        sequence.len() > 0,
    ensures
        Game::start(width, settled, sequence).wf(),
        Game::start(width, settled, sequence).width == width,
        Game::start(width, settled, sequence).settled == settled,
        Game::start(width, settled, sequence).sequence == sequence,
{
    lemma_spawned_wf(Game { width, settled, active: None, sequence, cursor: 0 });
}

/// A game on an empty board starts well formed, whatever its dimensions.
pub proof fn lemma_fresh_wf(width: nat, height: nat)
    ensures
        Game::fresh(width, height).wf(),
        Game::fresh(width, height).width == width,
        Game::fresh(width, height).height() == height,
{
    let grid = empty_grid(width, height);
    assert forall|y: int| 0 <= y < grid.len() implies !row_full(#[trigger] grid[y]) by {
        if width > 0 {
            assert(grid[y][0] is None);
        }
    }
    lemma_start_wf(width, grid, spec_all_kinds());
}

/// On a board without columns or without rows no piece can enter: the game
/// is over from the start.
pub proof fn lemma_fresh_without_cells(width: nat, height: nat)
    requires
        width == 0 || height == 0,
    ensures
        Game::fresh(width, height).game_over(),
{
    let g = Game {
        width,
        settled: empty_grid(width, height),
        active: None,
        sequence: spec_all_kinds(),
        cursor: 0,
    };
    let piece = spawn_placement(spec_all_kinds()[0], width);
    assert(!g.free(piece.cells()[0]));
}

/// Every cell of the falling piece lies on the board, and no settled cell
/// shares its coordinate.
pub proof fn lemma_active_cells_free(g: Game, i: int)
    requires
        g.wf(),
        g.active is Some,
        0 <= i < 4,
    ensures
        g.in_bounds(g.active->0.cells()[i]),
        g.settled[g.active->0.cells()[i].1][g.active->0.cells()[i].0] is None,
{
    assert(g.free(g.active->0.cells()[i]));
}

/// A sideways move keeps the state well formed and touches nothing but the
/// falling piece.
pub proof fn lemma_shifted_wf(g: Game, direction: Direction)
    requires
        g.wf(),
    ensures
        g.shifted(direction).wf(),
        g.shifted(direction).settled == g.settled,
        g.shifted(direction).width == g.width,
        g.shifted(direction).game_over() == g.game_over(),
{
    let next = g.shifted(direction);
    if let Some(piece) = next.active {
        assert forall|i: int| 0 <= i < 4 implies next.free(#[trigger] piece.cells()[i]) by {
            assert(g.free(piece.cells()[i]));
        }
    }
}

/// A turn keeps the state well formed and touches nothing but the falling
/// piece.
pub proof fn lemma_rotated_wf(g: Game)
    requires
        g.wf(),
    ensures
        g.rotated().wf(),
        g.rotated().settled == g.settled,
        g.rotated().width == g.width,
        g.rotated().game_over() == g.game_over(),
{
    let next = g.rotated();
    if let Some(piece) = next.active {
        assert forall|i: int| 0 <= i < 4 implies next.free(#[trigger] piece.cells()[i]) by {
            assert(g.free(piece.cells()[i]));
        }
    }
}

/// A step of gravity keeps the state well formed, and the board keeps its
/// dimensions.
pub proof fn lemma_ticked_wf(g: Game)
    requires
        g.wf(),
    ensures
        g.ticked().wf(),
        g.ticked().width == g.width,
        g.ticked().height() == g.height(),
{
    if let Some(piece) = g.active {
        let lower = piece.moved(0, 1);
        if g.legal(lower) {
            let next = g.ticked();
            assert forall|i: int| 0 <= i < 4 implies next.free(#[trigger] lower.cells()[i]) by {
                assert(g.free(lower.cells()[i]));
            }
        } else {
            let written = with_piece(g.settled, piece);
            assert(rectangular(written, g.width));
            lemma_cleared_shape(written, g.width);
            lemma_spawned_wf(
                Game { settled: cleared(written, g.width), active: None, ..g },
            );
        }
    }
}

/// A step of gravity with room below moves the falling piece one row down
/// and leaves the settled cells as they are.
pub proof fn lemma_tick_falls(g: Game)
    requires
        g.active is Some,
        g.legal(g.active->0.moved(0, 1)),
    ensures
        g.ticked().active == Some(g.active->0.moved(0, 1)),
        g.ticked().settled == g.settled,
        g.ticked().cursor == g.cursor,
{
}

/// A step of gravity without room below locks the falling piece: the
/// settled cells become the old ones with the piece written in and the
/// full rows removed, so that one empty row stands at the top for each row
/// removed, the other rows follow in their order, and no full row is left.
/// The piece that enters next is the one the cursor named.
pub proof fn lemma_tick_locks(g: Game)
    requires
        g.wf(),
        g.active is Some,
        !g.legal(g.active->0.moved(0, 1)),
    ensures
        g.ticked().settled == cleared(with_piece(g.settled, g.active->0), g.width),
        g.ticked().settled.len() == g.settled.len(),
        no_full_row(g.ticked().settled),
        g.ticked().active is Some ==> g.ticked().active->0 == spawn_placement(
            g.sequence[g.cursor as int],
            g.width,
        ),
{
    let written = with_piece(g.settled, g.active->0);
    assert(rectangular(written, g.width));
    lemma_cleared_shape(written, g.width);
}

/// Locking overwrites nothing: every cell that was settled before the
/// falling piece is written into the grid holds the same kind after, and
/// every cell that changes is a cell of the piece.
pub proof fn lemma_lock_keeps_settled_cells(g: Game, x: int, y: int)
    requires
        g.wf(),
        g.active is Some,
        g.in_bounds((x, y)),
    ensures
        g.settled[y][x] is Some ==> with_piece(g.settled, g.active->0)[y][x] == g.settled[y][x],
        with_piece(g.settled, g.active->0)[y][x] != g.settled[y][x] ==> g.active->0.covers((x, y)),
{
    let piece = g.active->0;
    if piece.covers((x, y)) {
        let i = choose|i: int| 0 <= i < piece.cells().len() && piece.cells()[i] == (x, y);
        assert(g.free(piece.cells()[i]));
    }
}

/// A piece that locks without completing a row leaves the other settled
/// cells where they are: the grid is the old one with the piece written in.
pub proof fn lemma_tick_locks_without_clear(g: Game)
    requires
        g.wf(),
        g.active is Some,
        !g.legal(g.active->0.moved(0, 1)),
        no_full_row(with_piece(g.settled, g.active->0)),
    ensures
        g.ticked().settled == with_piece(g.settled, g.active->0),
{
    lemma_cleared_without_full_row(with_piece(g.settled, g.active->0), g.width);
}

/// Once the game is over, no request changes the state.
pub proof fn lemma_game_over_is_final(g: Game, direction: Direction)
    requires
        g.game_over(),
    ensures
        g.ticked() == g,
        g.shifted(direction) == g,
        g.rotated() == g,
{
}

/// A sideways move that is accepted is undone by the opposite move: the
/// piece is back at its position and nothing else has changed.
pub proof fn lemma_shift_there_and_back(g: Game, direction: Direction)
    requires
        g.wf(),
        g.active is Some,
        g.legal(g.active->0.moved(direction.dx(), 0)),
    ensures
        g.shifted(direction).shifted(direction.opposite()) == g,
{
    let piece = g.active->0;
    let there = piece.moved(direction.dx(), 0);
    let back = there.moved(direction.opposite().dx(), 0);
    assert(back == piece);
    let mid = g.shifted(direction);
    assert forall|i: int| 0 <= i < 4 implies mid.free(#[trigger] back.cells()[i]) by {
        assert(g.free(piece.cells()[i]));
    }
}

/// Turning a piece as many times as its kind has orientations, or twice as
/// many, gives the piece back.
pub proof fn lemma_turns_cycle(piece: PieceView)
    requires
        piece.valid(),
    ensures
        piece.turned_times(spec_rotation_count(piece.kind)) == piece,
        piece.turned_times(2 * spec_rotation_count(piece.kind)) == piece,
{
    reveal_with_fuel(PieceView::turned_times, 9);
}

impl Game {
    /// The state after `n` successive requests to turn the falling piece.
    pub open spec fn rotated_times(self, n: nat) -> Game
        decreases n,
    {
        if n == 0 {
            self
        } else {
            self.rotated_times((n - 1) as nat).rotated()
        }
    }
}

/// While every orientation on the way is legal, `n` requests to turn the
/// falling piece turn it `n` times and change nothing else.
pub proof fn lemma_rotated_times(g: Game, n: nat)
    requires
        g.active is Some,
        forall|k: nat| 1 <= k <= n ==> g.legal(#[trigger] g.active->0.turned_times(k)),
    ensures
        g.rotated_times(n) == (Game { active: Some(g.active->0.turned_times(n)), ..g }),
    decreases n,
{
    if n > 0 {
        lemma_rotated_times(g, (n - 1) as nat);
        let before = g.rotated_times((n - 1) as nat);
        let piece = g.active->0.turned_times((n - 1) as nat);
        assert(piece.turned() == g.active->0.turned_times(n));
        assert(g.legal(g.active->0.turned_times(n)));
        assert forall|i: int| 0 <= i < 4 implies before.free(
            #[trigger] piece.turned().cells()[i],
        ) by {
            assert(g.free(piece.turned().cells()[i]));
        }
    }
}

/// Rotation is cyclic: where the board lets the falling piece through all
/// the orientations of its kind, one full cycle of turns, and two, bring
/// the game back to the state it was in.
pub proof fn lemma_rotation_cycles(g: Game)
    requires
        g.wf(),
        g.active is Some,
        forall|k: nat|
            1 <= k <= spec_rotation_count(g.active->0.kind) ==> g.legal(
                #[trigger] g.active->0.turned_times(k),
            ),
    ensures
        g.rotated_times(spec_rotation_count(g.active->0.kind)) == g,
        g.rotated_times(2 * spec_rotation_count(g.active->0.kind)) == g,
        g.rotated_times(spec_rotation_count(g.active->0.kind)).active->0.cells()
            == g.active->0.cells(),
{
    let piece = g.active->0;
    let count = spec_rotation_count(piece.kind);
    lemma_turns_cycle(piece);
    lemma_rotated_times(g, count);
    assert forall|k: nat| 1 <= k <= 2 * count implies g.legal(
        #[trigger] piece.turned_times(k),
    ) by {
        if k > count {
            lemma_turned_times_add(piece, count, (k - count) as nat);
            assert(piece.turned_times(k) == piece.turned_times((k - count) as nat));
        }
    }
    lemma_rotated_times(g, 2 * count);
}

/// Turning `a` times and then `b` times is turning `a + b` times.
pub proof fn lemma_turned_times_add(piece: PieceView, a: nat, b: nat)
    ensures
        piece.turned_times(a + b) == piece.turned_times(a).turned_times(b),
    decreases b,
{
    if b > 0 {
        lemma_turned_times_add(piece, a, (b - 1) as nat);
        assert(piece.turned_times(a + b) == piece.turned_times((a + b - 1) as nat).turned());
    }
}

} // verus!
