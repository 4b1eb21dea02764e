//! The catalogue of piece kinds and their geometry.
//!
//! Every kind lives in a square box. Its cells in the spawn orientation are
//! given as data; every further orientation is the previous one turned a
//! quarter clockwise inside the box. The executable catalogue is a lookup
//! table, proved equal to that geometric definition entry by entry.

use vstd::prelude::*;

verus! {

/// One of the seven four-cell pieces.
#[derive(Clone, Copy, Debug, PartialEq, Eq, Structural, Hash)]
pub enum Kind {
    I,
    O,
    T,
    L,
    J,
    S,
    Z,
}

/// A cell coordinate: `x` counts columns from the left, `y` rows from the top.
///
/// Used both for board cells and, relative to a piece's anchor, for the
/// offsets of its cells.
#[derive(Clone, Copy, Debug, PartialEq, Eq, Structural, Hash)]
pub struct Position {
    pub x: i64,
    pub y: i64,
}

impl View for Position {
    type V = (int, int);

    open spec fn view(&self) -> (int, int) {
        (self.x as int, self.y as int)
    }
}

/// Side length of the square box in which a kind turns.
pub open spec fn box_size(kind: Kind) -> int {
    match kind {
        Kind::I => 4,
        Kind::O => 2,
        _ => 3,
    }
}

/// The cells of a kind in its spawn orientation, relative to the top-left
/// corner of its box.
pub open spec fn base_cells(kind: Kind) -> Seq<(int, int)> {
    match kind {
        Kind::I => seq![(0, 1), (1, 1), (2, 1), (3, 1)],
        Kind::O => seq![(0, 0), (1, 0), (0, 1), (1, 1)],
        Kind::T => seq![(1, 0), (0, 1), (1, 1), (2, 1)],
        Kind::L => seq![(2, 0), (0, 1), (1, 1), (2, 1)],
        Kind::J => seq![(0, 0), (0, 1), (1, 1), (2, 1)],
        Kind::S => seq![(1, 0), (2, 0), (0, 1), (1, 1)],
        Kind::Z => seq![(0, 0), (1, 0), (1, 1), (2, 1)],
    }
}

/// A cell turned a quarter clockwise inside a box of side `n`.
pub open spec fn quarter_turn(c: (int, int), n: int) -> (int, int) {
    (n - 1 - c.1, c.0)
}

/// A cell turned `r` quarters clockwise inside a box of side `n`.
pub open spec fn turned(c: (int, int), n: int, r: nat) -> (int, int)
    decreases r,
{
    if r == 0 {
        c
    } else {
        quarter_turn(turned(c, n, (r - 1) as nat), n)
    }
}

/// The cells of a kind after `r` quarter turns, relative to its box.
pub open spec fn spec_cells_for(kind: Kind, r: nat) -> Seq<(int, int)> {
    Seq::new(4, |i: int| turned(base_cells(kind)[i], box_size(kind), r))
}

/// Number of orientations a kind cycles through. The square looks the same
/// after every quarter turn; every other kind has four orientations.
pub open spec fn spec_rotation_count(kind: Kind) -> nat {
    match kind {
        Kind::O => 1,
        _ => 4,
    }
}

/// The rotation index that follows `r` in the cycle of `kind`.
pub open spec fn spec_next_rotation(kind: Kind, r: nat) -> nat {
    if r + 1 < spec_rotation_count(kind) {
        r + 1
    } else {
        0
    }
}

/// The catalogue in its fixed order.
pub open spec fn spec_all_kinds() -> Seq<Kind> {
    seq![Kind::I, Kind::O, Kind::T, Kind::L, Kind::J, Kind::S, Kind::Z]
}

/// Number of orientations of `kind`.
pub fn rotation_count(kind: Kind) -> (n: u8)
    ensures
        n == spec_rotation_count(kind),
{
    match kind {
        Kind::O => 1,
        _ => 4,
    }
}

/// The rotation index that follows `rotation` for `kind`, wrapping to 0.
pub fn next_rotation(kind: Kind, rotation: u8) -> (n: u8)
    requires
        rotation < spec_rotation_count(kind),
    ensures
        n == spec_next_rotation(kind, rotation as nat),
        n < spec_rotation_count(kind),
{
    if rotation + 1 < rotation_count(kind) {
        rotation + 1
    } else {
        0
    }
}

/// Every kind of the catalogue, in its fixed order.
pub fn all_kinds() -> (kinds: Vec<Kind>)
    ensures
        kinds@ == spec_all_kinds(),
{
    let kinds = vec![Kind::I, Kind::O, Kind::T, Kind::L, Kind::J, Kind::S, Kind::Z];
    assert(kinds@ =~= spec_all_kinds());
    kinds
}

/// The mathematical cells that a sequence of positions stands for.
pub open spec fn cells_of(positions: Seq<Position>) -> Seq<(int, int)> {
    Seq::new(positions.len(), |i: int| positions[i]@)
}

fn at(x: i64, y: i64) -> (p: Position)
    ensures
        p@ == (x as int, y as int),
{
    Position { x, y }
}

/// The cells of `kind` in orientation `rotation`, relative to the top-left
/// corner of its box, read from the catalogue's table.
pub fn cells_for(kind: Kind, rotation: u8) -> (cells: [Position; 4])
    requires
        rotation < spec_rotation_count(kind),
    ensures
        cells_of(cells@) == spec_cells_for(kind, rotation as nat),
{
    let cells = match kind {
        Kind::I => match rotation {
            0 => [at(0, 1), at(1, 1), at(2, 1), at(3, 1)],
            1 => [at(2, 0), at(2, 1), at(2, 2), at(2, 3)],
            2 => [at(3, 2), at(2, 2), at(1, 2), at(0, 2)],
            _ => [at(1, 3), at(1, 2), at(1, 1), at(1, 0)],
        },
        Kind::O => [at(0, 0), at(1, 0), at(0, 1), at(1, 1)],
        Kind::T => match rotation {
            0 => [at(1, 0), at(0, 1), at(1, 1), at(2, 1)],
            1 => [at(2, 1), at(1, 0), at(1, 1), at(1, 2)],
            2 => [at(1, 2), at(2, 1), at(1, 1), at(0, 1)],
            _ => [at(0, 1), at(1, 2), at(1, 1), at(1, 0)],
        },
        Kind::L => match rotation {
            0 => [at(2, 0), at(0, 1), at(1, 1), at(2, 1)],
            1 => [at(2, 2), at(1, 0), at(1, 1), at(1, 2)],
            2 => [at(0, 2), at(2, 1), at(1, 1), at(0, 1)],
            _ => [at(0, 0), at(1, 2), at(1, 1), at(1, 0)],
        },
        Kind::J => match rotation {
            0 => [at(0, 0), at(0, 1), at(1, 1), at(2, 1)],
            1 => [at(2, 0), at(1, 0), at(1, 1), at(1, 2)],
            2 => [at(2, 2), at(2, 1), at(1, 1), at(0, 1)],
            _ => [at(0, 2), at(1, 2), at(1, 1), at(1, 0)],
        },
        Kind::S => match rotation {
            0 => [at(1, 0), at(2, 0), at(0, 1), at(1, 1)],
            1 => [at(2, 1), at(2, 2), at(1, 0), at(1, 1)],
            2 => [at(1, 2), at(0, 2), at(2, 1), at(1, 1)],
            _ => [at(0, 1), at(0, 0), at(1, 2), at(1, 1)],
        },
        Kind::Z => match rotation {
            0 => [at(0, 0), at(1, 0), at(1, 1), at(2, 1)],
            1 => [at(2, 0), at(2, 1), at(1, 1), at(1, 2)],
            2 => [at(2, 2), at(1, 2), at(1, 1), at(0, 1)],
            _ => [at(0, 2), at(0, 1), at(1, 1), at(1, 0)],
        },
    };
    proof {
        reveal_with_fuel(turned, 4);
        assert(cells_of(cells@) =~= spec_cells_for(kind, rotation as nat));
    }
    cells
}

/// Four quarter turns bring every cell back to where it was.
pub proof fn lemma_full_turn(c: (int, int), n: int)
    ensures
        turned(c, n, 4) == c,
{
    reveal_with_fuel(turned, 5);
}

/// The four cells of an orientation are pairwise different.
pub proof fn lemma_cells_distinct(kind: Kind, r: nat, i: int, j: int)
    requires
        r < spec_rotation_count(kind),
        0 <= i < j < 4,
    ensures
        spec_cells_for(kind, r)[i] != spec_cells_for(kind, r)[j],
{
    reveal_with_fuel(turned, 4);
}

/// Advancing the rotation index is a quarter turn clockwise: the
/// orientation that follows `r` in the cycle of `kind` has the cells of
/// orientation `r` turned once more, whatever their order.
pub proof fn lemma_next_rotation_is_quarter_turn(kind: Kind, r: nat)
    requires
        r < spec_rotation_count(kind),
    ensures
        spec_cells_for(kind, spec_next_rotation(kind, r)).to_set() == spec_cells_for(
            kind,
            r + 1,
        ).to_set(),
{
    reveal_with_fuel(turned, 5);
    let next = spec_cells_for(kind, spec_next_rotation(kind, r));
    let turn = spec_cells_for(kind, r + 1);
    if kind == Kind::O {
        assert(next[0] == turn[2] && next[1] == turn[0] && next[2] == turn[3] && next[3]
            == turn[1]);
        assert forall|c: (int, int)| next.contains(c) <==> turn.contains(c) by {
            if next.contains(c) {
                let i = choose|i: int| 0 <= i < next.len() && next[i] == c;
                let j = if i == 0 {
                    2int
                } else if i == 1 {
                    0
                } else if i == 2 {
                    3
                } else {
                    1
                };
                assert(turn[j] == c);
            }
            if turn.contains(c) {
                let j = choose|j: int| 0 <= j < turn.len() && turn[j] == c;
                let i = if j == 2 {
                    0int
                } else if j == 0 {
                    1
                } else if j == 3 {
                    2
                } else {
                    3
                };
                assert(next[i] == c);
            }
        }
        assert(next.to_set() =~= turn.to_set());
    } else {
        assert(next =~= turn);
    }
}

/// Two different orientations of a kind, both below its rotation count,
/// never occupy the same set of cells: the count is the length of the
/// cycle, not a multiple of it.
pub proof fn lemma_orientations_differ(kind: Kind, a: nat, b: nat)
    requires
        a < b < spec_rotation_count(kind),
    ensures
        spec_cells_for(kind, a).to_set() != spec_cells_for(kind, b).to_set(),
{
    reveal_with_fuel(turned, 4);
    let first = spec_cells_for(kind, a);
    let second = spec_cells_for(kind, b);
    if first.to_set() == second.to_set() {
        assert forall|i: int| 0 <= i < 4 implies second.contains(#[trigger] first[i]) by {
            assert(first.contains(first[i]));
            assert(first.to_set().contains(first[i]));
        }
        assert(second.contains(first[0]));
        assert(second.contains(first[1]));
        assert(second.contains(first[2]));
        assert(second.contains(first[3]));
    }
}

} // verus!
