//! The grid of settled cells and the removal of full rows.
//!
//! A grid is a sequence of rows, top row first; a row is a sequence of cells,
//! leftmost first; a cell is empty or holds the kind of the piece that
//! settled there.

use vstd::prelude::*;
use crate::piece::{Piece, PieceView};
use crate::shape::{cells_of, Kind};

verus! {

/// A row of cells, as the specifications see it.
pub type RowView = Seq<Option<Kind>>;

/// A grid of cells, as the specifications see it.
pub type GridView = Seq<Seq<Option<Kind>>>;

/// The mathematical grid that a vector of rows stands for.
pub open spec fn grid_view(rows: Seq<Vec<Option<Kind>>>) -> GridView {
    Seq::new(rows.len(), |y: int| rows[y]@)
}

/// Every row of the grid has `width` cells.
pub open spec fn rectangular(grid: GridView, width: nat) -> bool {
    forall|y: int| 0 <= y < grid.len() ==> (#[trigger] grid[y]).len() == width
}

/// A row is full when it has at least one cell and every cell is occupied.
/// A row without cells is never full, so a board of width 0 never clears.
pub open spec fn row_full(row: RowView) -> bool {
    row.len() > 0 && forall|x: int| 0 <= x < row.len() ==> (#[trigger] row[x]) is Some
}

/// A row of `width` empty cells.
pub open spec fn empty_row(width: nat) -> RowView {
    Seq::new(width, |x: int| None)
}

/// `height` rows of `width` empty cells.
pub open spec fn empty_grid(width: nat, height: nat) -> GridView {
    Seq::new(height, |y: int| empty_row(width))
}

/// The grid with the cells of `piece` written into it.
pub open spec fn with_piece(grid: GridView, piece: PieceView) -> GridView {
    Seq::new(
        grid.len(),
        |y: int|
            Seq::new(
                grid[y].len(),
                |x: int|
                    if piece.covers((x, y)) {
                        Some(piece.kind)
                    } else {
                        grid[y][x]
                    },
            ),
    )
}

/// No row of the grid is full.
pub open spec fn no_full_row(grid: GridView) -> bool {
    forall|y: int| 0 <= y < grid.len() ==> !row_full(#[trigger] grid[y])
}

/// The rows that are not full, in the order they had.
pub open spec fn kept_rows(grid: GridView) -> GridView {
    grid.filter(|row: RowView| !row_full(row))
}

/// The grid after its full rows are removed: the remaining rows keep their
/// order and content and sink to the bottom, and as many empty rows as were
/// removed are added at the top.
pub open spec fn cleared(grid: GridView, width: nat) -> GridView {
    empty_grid(width, (grid.len() - kept_rows(grid).len()) as nat) + kept_rows(grid)
}

/// Removing the full rows keeps the grid's height and width, and leaves no
/// full row behind.
pub proof fn lemma_cleared_shape(grid: GridView, width: nat)
    requires
        rectangular(grid, width),
    ensures
        cleared(grid, width).len() == grid.len(),
        rectangular(cleared(grid, width), width),
        no_full_row(cleared(grid, width)),
{
    let keep = |row: RowView| !row_full(row);
    let kept = kept_rows(grid);
    grid.lemma_filter_len(keep);
    let pad = (grid.len() - kept.len()) as nat;
    let out = cleared(grid, width);
    assert forall|y: int| 0 <= y < out.len() implies (#[trigger] out[y]).len() == width
        && !row_full(out[y]) by {
        if y < pad {
            assert(out[y] == empty_row(width));
            if width > 0 {
                assert(out[y][0] is None);
            }
        } else {
            let j = y - pad;
            assert(out[y] == kept[j]);
            grid.lemma_filter_pred(keep, j);
            grid.lemma_filter_contains_rev(keep, kept[j]);
            let i = choose|i: int| 0 <= i < grid.len() && grid[i] == kept[j];
            assert(grid[i].len() == width);
        }
    }
}

/// The full rows, in the order they had.
pub open spec fn full_rows(grid: GridView) -> GridView {
    grid.filter(|row: RowView| row_full(row))
}

/// Every row is either kept or full: the kept rows and the full rows
/// together are as many as the grid has rows.
pub proof fn lemma_rows_kept_or_full(grid: GridView)
    ensures
        kept_rows(grid).len() + full_rows(grid).len() == grid.len(),
    decreases grid.len(),
{
    reveal(Seq::filter);
    if grid.len() > 0 {
        lemma_rows_kept_or_full(grid.drop_last());
    }
}

/// What removing the full rows leaves: at the top one empty row for each
/// full row that was removed, and below them the rows that were not full,
/// in the order they had and with their content.
pub proof fn lemma_cleared_layout(grid: GridView, width: nat)
    ensures
        cleared(grid, width).len() == grid.len(),
        forall|y: int|
            0 <= y < full_rows(grid).len() ==> #[trigger] cleared(grid, width)[y] == empty_row(
                width,
            ),
        forall|j: int|
            0 <= j < kept_rows(grid).len() ==> cleared(grid, width)[full_rows(grid).len() + j]
                == #[trigger] kept_rows(grid)[j],
{
    lemma_rows_kept_or_full(grid);
}

/// A grid without a full row is left unchanged.
pub proof fn lemma_cleared_without_full_row(grid: GridView, width: nat)
    requires
        no_full_row(grid),
    ensures
        cleared(grid, width) == grid,
{
    lemma_kept_all(grid);
    assert(cleared(grid, width) =~= grid);
}

proof fn lemma_kept_all(grid: GridView)
    requires
        no_full_row(grid),
    ensures
        kept_rows(grid) == grid,
    decreases grid.len(),
{
    reveal(Seq::filter);
    if grid.len() > 0 {
        let front = grid.drop_last();
        assert forall|y: int| 0 <= y < front.len() implies !row_full(#[trigger] front[y]) by {
            assert(front[y] == grid[y]);
        }
        lemma_kept_all(front);
        assert(!row_full(grid[grid.len() - 1]));
        assert(kept_rows(grid) =~= grid);
    } else {
        assert(kept_rows(grid) =~= grid);
    }
}

/// Whether every cell of a non-empty row is occupied.
pub fn is_row_full(row: &Vec<Option<Kind>>) -> (full: bool)
    ensures
        full == row_full(row@),
{
    if row.len() == 0 {
        return false;
    }
    let mut x: usize = 0;
    while x < row.len()
        invariant
            x <= row.len(),
            forall|i: int| 0 <= i < x ==> (#[trigger] row@[i]) is Some,
        decreases row.len() - x,
    {
        if row[x].is_none() {
            return false;
        }
        x += 1;
    }
    true
}

/// A row of `width` empty cells.
pub fn new_row(width: u32) -> (row: Vec<Option<Kind>>)
    ensures
        row@ == empty_row(width as nat),
{
    let mut row: Vec<Option<Kind>> = Vec::new();
    let mut x: u32 = 0;
    while x < width
        invariant
            x <= width,
            row@ == empty_row(x as nat),
        decreases width - x,
    {
        row.push(None);
        x += 1;
        assert(row@ =~= empty_row(x as nat));
    }
    row
}

/// A grid of `height` rows of `width` empty cells.
pub fn new_grid(width: u32, height: u32) -> (rows: Vec<Vec<Option<Kind>>>)
    ensures
        grid_view(rows@) == empty_grid(width as nat, height as nat),
{
    let mut rows: Vec<Vec<Option<Kind>>> = Vec::new();
    let mut y: u32 = 0;
    while y < height
        invariant
            y <= height,
            grid_view(rows@) == empty_grid(width as nat, y as nat),
        decreases height - y,
    {
        let ghost before = rows@;
        rows.push(new_row(width));
        y += 1;
        proof {
            assert(grid_view(before).len() == before.len());
            assert forall|j: int| 0 <= j < y implies grid_view(rows@)[j] == empty_row(
                width as nat,
            ) by {
                if j < y - 1 {
                    assert(grid_view(before)[j] == empty_row(width as nat));
                }
            }
            assert(grid_view(rows@) =~= empty_grid(width as nat, y as nat));
        }
    }
    rows
}

/// Removes every full row. The rows that remain keep their order and
/// content and sink to the bottom; as many empty rows as were removed are
/// added at the top, so the grid keeps its height.
pub fn clear_full_rows(rows: &Vec<Vec<Option<Kind>>>, width: u32) -> (out: Vec<Vec<Option<Kind>>>)
    ensures
        grid_view(out@) == cleared(grid_view(rows@), width as nat),
{
    let ghost grid = grid_view(rows@);
    let ghost keep = |row: RowView| !row_full(row);
    let mut kept: Vec<Vec<Option<Kind>>> = Vec::new();
    let mut full: usize = 0;
    let mut y: usize = 0;
    proof {
        reveal(Seq::filter);
        assert(grid.take(0) =~= Seq::<RowView>::empty());
        assert(grid_view(kept@) =~= kept_rows(grid.take(0)));
    }
    while y < rows.len()
        invariant
            y <= rows.len(),
            grid == grid_view(rows@),
            grid_view(kept@) == kept_rows(grid.take(y as int)),
            kept@.len() + full == y,
        decreases rows.len() - y,
    {
        let ghost before = kept@;
        let is_full = is_row_full(&rows[y]);
        if is_full {
            full += 1;
        } else {
            kept.push(rows[y].clone());
        }
        proof {
            reveal(Seq::filter);
            let next = grid.take(y + 1);
            assert(next.drop_last() =~= grid.take(y as int));
            assert(next.last() == rows@[y as int]@);
            assert(grid_view(before).len() == before.len());
            if !is_full {
                assert forall|j: int| 0 <= j < kept@.len() implies grid_view(kept@)[j]
                    == kept_rows(next)[j] by {
                    if j < before.len() {
                        assert(grid_view(before)[j] == kept_rows(grid.take(y as int))[j]);
                    }
                }
            }
            assert(grid_view(kept@) =~= kept_rows(next));
        }
        y += 1;
    }
    assert(grid.take(y as int) =~= grid);
    let mut out: Vec<Vec<Option<Kind>>> = Vec::new();
    let mut i: usize = 0;
    while i < full
        invariant
            i <= full,
            grid_view(out@) == empty_grid(width as nat, i as nat),
        decreases full - i,
    {
        let ghost before = out@;
        out.push(new_row(width));
        i += 1;
        proof {
            assert(grid_view(before).len() == before.len());
            assert forall|j: int| 0 <= j < i implies grid_view(out@)[j] == empty_row(
                width as nat,
            ) by {
                if j < i - 1 {
                    assert(grid_view(before)[j] == empty_row(width as nat));
                }
            }
            assert(grid_view(out@) =~= empty_grid(width as nat, i as nat));
        }
    }
    let ghost pad = out@;
    let ghost tail = kept@;
    out.append(&mut kept);
    proof {
        assert(grid_view(pad).len() == pad.len());
        assert(grid_view(tail).len() == tail.len());
        assert forall|j: int| 0 <= j < out@.len() implies grid_view(out@)[j] == cleared(
            grid,
            width as nat,
        )[j] by {
            if j < pad.len() {
                assert(grid_view(pad)[j] == empty_row(width as nat));
            } else {
                assert(grid_view(tail)[j - pad.len()] == kept_rows(grid)[j - pad.len()]);
            }
        }
        assert(grid_view(out@) =~= cleared(grid, width as nat));
    }
    out
}

/// The cell lies on the grid.
pub open spec fn on_grid(grid: GridView, c: (int, int)) -> bool {
    0 <= c.1 < grid.len() && 0 <= c.0 < grid[c.1].len()
}

/// Writes the cells of `piece` into the grid. Every cell of the piece must
/// lie on the grid.
pub fn settle(rows: &mut Vec<Vec<Option<Kind>>>, piece: &Piece)
    requires
        piece@.valid(),
        piece.x <= i64::MAX - 3,
        piece.y <= i64::MAX - 3,
        forall|i: int| 0 <= i < 4 ==> on_grid(grid_view(old(rows)@), #[trigger] piece@.cells()[i]),
    ensures
        grid_view(final(rows)@) == with_piece(grid_view(old(rows)@), piece@),
{
    let cells = piece.cells();
    let ghost before = grid_view(rows@);
    let ghost target = piece@.cells();
    let mut i: usize = 0;
    while i < 4
        invariant
            i <= 4,
            target == piece@.cells(),
            cells_of(cells@) == target,
            forall|j: int| 0 <= j < 4 ==> on_grid(before, #[trigger] target[j]),
            rows@.len() == before.len(),
            forall|y: int|
                0 <= y < before.len() ==> (#[trigger] rows@[y])@.len() == before[y].len(),
            forall|y: int, x: int|
                0 <= y < before.len() && 0 <= x < before[y].len() ==> (#[trigger] rows@[y]@[x])
                    == (if exists|j: int| 0 <= j < i && target[j] == (x, y) {
                    Some(piece.kind)
                } else {
                    before[y][x]
                }),
        decreases 4 - i,
    {
        let ghost c = target[i as int];
        assert(on_grid(before, c));
        assert(cells_of(cells@)[i as int] == cells@[i as int]@);
        assert(rows.len() == rows@.len());
        assert(rows@[c.1].len() == rows@[c.1]@.len());
        let x = cells[i].x as usize;
        let y = cells[i].y as usize;
        let ghost prior = rows@;
        assert(prior[y as int]@.len() == before[y as int].len());
        rows[y][x] = Some(piece.kind);
        proof {
            assert(rows@.len() == prior.len());
            assert(rows@[y as int]@ == prior[y as int]@.update(x as int, Some(piece.kind)));
            assert(forall|yy: int| 0 <= yy < prior.len() && yy != y ==> rows@[yy] == prior[yy]);
            assert forall|yy: int, xx: int|
                0 <= yy < before.len() && 0 <= xx < before[yy].len() implies (
            #[trigger] rows@[yy]@[xx]) == (if exists|j: int|
                0 <= j < i + 1 && target[j] == (xx, yy) {
                Some(piece.kind)
            } else {
                before[yy][xx]
            }) by {
                assert(prior[yy]@.len() == before[yy].len());
                if (xx, yy) == c {
                    assert(target[i as int] == (xx, yy));
                } else {
                    assert(rows@[yy]@[xx] == prior[yy]@[xx]);
                    if exists|j: int| 0 <= j < i + 1 && target[j] == (xx, yy) {
                        let j = choose|j: int| 0 <= j < i + 1 && target[j] == (xx, yy);
                        assert(j < i);
                    }
                }
            }
        }
        i += 1;
    }
    proof {
        let after = grid_view(rows@);
        let want = with_piece(before, piece@);
        assert forall|y: int| 0 <= y < before.len() implies after[y] =~= want[y] by {
            assert(rows@[y]@.len() == before[y].len());
            assert forall|x: int| 0 <= x < before[y].len() implies after[y][x] == want[y][x] by {
                assert(after[y][x] == rows@[y]@[x]);
                if piece@.covers((x, y)) {
                    let j = choose|j: int| 0 <= j < target.len() && target[j] == (x, y);
                    assert(0 <= j < 4 && target[j] == (x, y));
                }
            }
        }
        assert(after =~= want);
    }
}

} // verus!
