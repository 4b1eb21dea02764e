//! The coordinates of a board, in the order in which a display draws them.

use vstd::prelude::*;
use vstd::arithmetic::div_mod::{lemma_fundamental_div_mod, lemma_fundamental_div_mod_converse};
use crate::shape::Position;

verus! {

/// Every coordinate of a board of the given dimensions, row by row from the
/// top, each row from the left.
pub open spec fn board_positions(width: nat, height: nat) -> Seq<(int, int)> {
    Seq::new(width * height, |i: int| (i % (width as int), i / (width as int)))
}

/// `board_positions` holds the cell in column `x` of row `y` at index
/// `y * width + x`: every cell of the board occurs, at its one place in
/// row-major order.
pub proof fn lemma_board_positions_index(width: nat, height: nat, x: int, y: int)
    requires
        0 <= x < width,
        0 <= y < height,
    ensures
        0 <= y * width + x < board_positions(width, height).len(),
        board_positions(width, height)[y * width + x] == (x, y),
{
    let w = width as int;
    let h = height as int;
    assert(y * w + x < w * h) by (nonlinear_arith)
        requires
            0 <= x < w,
            0 <= y < h,
    ;
    assert(0 <= y * w + x) by (nonlinear_arith)
        requires
            0 <= x < w,
            0 <= y < h,
    ;
    lemma_fundamental_div_mod_converse(y * w + x, w, y, x);
}

/// Every element of `board_positions` is a cell of the board, and its index
/// is the one that `lemma_board_positions_index` names.
pub proof fn lemma_board_positions_on_board(width: nat, height: nat, i: int)
    requires
        0 <= i < board_positions(width, height).len(),
    ensures
        0 <= board_positions(width, height)[i].0 < width,
        0 <= board_positions(width, height)[i].1 < height,
        i == board_positions(width, height)[i].1 * width + board_positions(width, height)[i].0,
{
    let w = width as int;
    let h = height as int;
    assert(w > 0) by (nonlinear_arith)
        requires
            0 <= i < w * h,
            0 <= w,
    ;
    lemma_fundamental_div_mod(i, w);
    let q = i / w;
    let r = i % w;
    assert(0 <= r < w);
    assert(q < h && 0 <= q) by (nonlinear_arith)
        requires
            i == w * q + r,
            0 <= r < w,
            0 <= i < w * h,
    ;
    assert(w * q == q * w) by (nonlinear_arith);
}

/// A cursor over the coordinates of a board. It holds no reference to the
/// game: a new one from `iter_positions` starts again at the first cell.
#[derive(Clone, Copy, Debug)]
pub struct Positions {
    width: u32,
    height: u32,
    index: u64,
}

impl View for Positions {
    type V = Seq<(int, int)>;

    /// The coordinates still to come, next one first.
    closed spec fn view(&self) -> Seq<(int, int)> {
        board_positions(self.width as nat, self.height as nat).skip(self.index as int)
    }
}

impl Positions {
    /// The cursor's invariant: it has not run past the last cell.
    pub closed spec fn wf(&self) -> bool {
        self.index <= self.width * self.height
    }

    /// A cursor at the first cell of a board of the given dimensions.
    pub fn new(width: u32, height: u32) -> (positions: Positions)
        ensures
            positions.wf(),
            positions@ == board_positions(width as nat, height as nat),
    {
        let positions = Positions { width, height, index: 0 };
        assert(positions@ =~= board_positions(width as nat, height as nat));
        positions
    }

    /// The next coordinate, or `None` when every cell has been given.
    pub fn next(&mut self) -> (position: Option<Position>)
        requires
            old(self).wf(),
        ensures
            final(self).wf(),
            old(self)@.len() == 0 ==> position is None && final(self)@ == old(self)@,
            old(self)@.len() > 0 ==> position is Some && position->0@ == old(self)@[0]
                && final(self)@ == old(self)@.skip(1),
    {
        let ghost all = board_positions(self.width as nat, self.height as nat);
        assert((self.width as int) * (self.height as int) <= 0xffff_ffff * 0xffff_ffff)
            by (nonlinear_arith)
            requires
                0 <= self.width <= 0xffff_ffff,
                0 <= self.height <= 0xffff_ffff,
        ;
        let total: u64 = (self.width as u64) * (self.height as u64);
        if self.index >= total {
            return None;
        }
        proof {
            lemma_board_positions_on_board(
                self.width as nat,
                self.height as nat,
                self.index as int,
            );
        }
        let x = self.index % (self.width as u64);
        let y = self.index / (self.width as u64);
        let ghost before = self@;
        self.index = self.index + 1;
        assert(self@ =~= before.skip(1));
        Some(Position { x: x as i64, y: y as i64 })
    }
}

} // verus!
