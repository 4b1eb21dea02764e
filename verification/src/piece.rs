//! A piece placed on the board: its kind, its orientation and the position
//! of the top-left corner of its box.

use vstd::prelude::*;
use crate::shape::{
    box_size, cells_for, cells_of, spec_cells_for, spec_next_rotation, spec_rotation_count, turned,
    Kind, Position,
};

verus! {

/// A placed piece. `x` and `y` locate the top-left corner of the kind's box,
/// which may lie outside the board while the piece's cells lie inside.
#[derive(Clone, Copy, Debug, PartialEq, Eq, Structural, Hash)]
pub struct Piece {
    pub kind: Kind,
    pub rotation: u8,
    pub x: i64,
    pub y: i64,
}

/// A placed piece over the mathematical integers.
pub struct PieceView {
    pub kind: Kind,
    pub rotation: nat,
    pub x: int,
    pub y: int,
}

impl View for Piece {
    type V = PieceView;

    open spec fn view(&self) -> PieceView {
        PieceView {
            kind: self.kind,
            rotation: self.rotation as nat,
            x: self.x as int,
            y: self.y as int,
        }
    }
}

impl PieceView {
    /// The rotation index is one of the kind's orientations.
    pub open spec fn valid(self) -> bool {
        self.rotation < spec_rotation_count(self.kind)
    }

    /// The four board cells that the piece occupies.
    pub open spec fn cells(self) -> Seq<(int, int)> {
        Seq::new(
            4,
            |i: int|
                (
                    self.x + spec_cells_for(self.kind, self.rotation)[i].0,
                    self.y + spec_cells_for(self.kind, self.rotation)[i].1,
                ),
        )
    }

    /// Whether the piece occupies the cell `c`.
    pub open spec fn covers(self, c: (int, int)) -> bool {
        self.cells().contains(c)
    }

    /// The piece moved by `dx` columns and `dy` rows.
    pub open spec fn moved(self, dx: int, dy: int) -> PieceView {
        PieceView { x: self.x + dx, y: self.y + dy, ..self }
    }

    /// The piece turned to the next orientation of its kind, in place.
    pub open spec fn turned(self) -> PieceView {
        PieceView { rotation: spec_next_rotation(self.kind, self.rotation), ..self }
    }

    /// The piece after `n` successive turns.
    pub open spec fn turned_times(self, n: nat) -> PieceView
        decreases n,
    {
        if n == 0 {
            self
        } else {
            self.turned_times((n - 1) as nat).turned()
        }
    }
}

/// Where a piece of `kind` enters a board of `width` columns: in its spawn
/// orientation, its topmost cells in row 0, its box centred horizontally
/// (one column to the left of centre when the spare width is odd).
pub open spec fn spawn_placement(kind: Kind, width: nat) -> PieceView {
    PieceView {
        kind,
        rotation: 0,
        x: if width >= box_size(kind) {
            (width - box_size(kind)) / 2
        } else {
            0
        },
        y: if kind == Kind::I {
            -1
        } else {
            0
        },
    }
}

/// Every cell of a valid piece lies inside its box: between 0 and 3 columns
/// right of and rows below the piece's position.
pub proof fn lemma_cells_in_box(p: PieceView, i: int)
    requires
        p.valid(),
        0 <= i < 4,
    ensures
        p.x <= p.cells()[i].0 < p.x + box_size(p.kind),
        p.y <= p.cells()[i].1 < p.y + box_size(p.kind),
        box_size(p.kind) <= 4,
{
    reveal_with_fuel(turned, 4);
}

impl Piece {
    /// The four board cells that the piece occupies.
    pub fn cells(&self) -> (cells: [Position; 4])
        requires
            self@.valid(),
            self.x <= i64::MAX - 3,
            self.y <= i64::MAX - 3,
        ensures
            cells_of(cells@) == self@.cells(),
    {
        let offsets = cells_for(self.kind, self.rotation);
        proof {
            lemma_cells_in_box(self@, 0);
            lemma_cells_in_box(self@, 1);
            lemma_cells_in_box(self@, 2);
            lemma_cells_in_box(self@, 3);
            assert(forall|i: int| 0 <= i < 4 ==> cells_of(offsets@)[i] == offsets@[i]@);
        }
        let cells = [
            Position { x: self.x + offsets[0].x, y: self.y + offsets[0].y },
            Position { x: self.x + offsets[1].x, y: self.y + offsets[1].y },
            Position { x: self.x + offsets[2].x, y: self.y + offsets[2].y },
            Position { x: self.x + offsets[3].x, y: self.y + offsets[3].y },
        ];
        assert(cells_of(cells@) =~= self@.cells());
        cells
    }

    /// Whether the piece occupies the cell at `position`.
    pub fn covers(&self, position: Position) -> (covered: bool)
        requires
            self@.valid(),
            self.x <= i64::MAX - 3,
            self.y <= i64::MAX - 3,
        ensures
            covered == self@.covers(position@),
    {
        let cells = self.cells();
        let mut i: usize = 0;
        while i < 4
            invariant
                i <= 4,
                cells_of(cells@) == self@.cells(),
                forall|j: int| 0 <= j < i ==> self@.cells()[j] != position@,
            decreases 4 - i,
        {
            assert(cells_of(cells@)[i as int] == cells@[i as int]@);
            if cells[i].x == position.x && cells[i].y == position.y {
                assert(self@.cells()[i as int] == position@);
                return true;
            }
            i += 1;
        }
        false
    }
}

/// The piece of `kind` as it enters a board of `width` columns.
pub fn spawn_piece(kind: Kind, width: u32) -> (piece: Piece)
    ensures
        piece@ == spawn_placement(kind, width as nat),
{
    let side: u32 = match kind {
        Kind::I => 4,
        Kind::O => 2,
        _ => 3,
    };
    let x: i64 = if width >= side {
        ((width - side) / 2) as i64
    } else {
        0
    };
    let y: i64 = match kind {
        Kind::I => -1,
        _ => 0,
    };
    Piece { kind, rotation: 0, x, y }
}

} // verus!
