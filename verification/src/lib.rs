//! A falling-block puzzle engine: the piece catalogue, the board, and the
//! rules that move, rotate, lock and clear, each with a proved contract.

use vstd::prelude::*;

pub mod control;
pub mod game;
pub mod grid;
pub mod piece;
pub mod positions;
pub mod shape;
pub mod tetris;

pub use crate::control::{Event, Key, Session};
pub use crate::piece::Piece;
pub use crate::positions::Positions;
pub use crate::shape::{Kind, Position};
pub use crate::tetris::{Direction, Tetris};

verus! {

/// Columns of a board whose width is not given.
pub const DEFAULT_WIDTH: u32 = 10;

/// Rows of a board whose height is not given.
pub const DEFAULT_HEIGHT: u32 = 30;

/// The options of a game: the dimensions of its board.
#[derive(Clone, Copy, Debug, PartialEq, Eq, Structural, Hash)]
pub struct App {
    width: u32,
    height: u32,
}

impl View for App {
    type V = (nat, nat);

    /// The board's width and height.
    closed spec fn view(&self) -> (nat, nat) {
        (self.width as nat, self.height as nat)
    }
}

impl App {
    /// The options with the given dimensions, each replaced by its default
    /// where it is not given.
    pub fn from_dimensions(width: Option<u32>, height: Option<u32>) -> (app: App)
        ensures
            app@.0 == (match width {
                Some(w) => w,
                None => DEFAULT_WIDTH,
            }),
            app@.1 == (match height {
                Some(h) => h,
                None => DEFAULT_HEIGHT,
            }),
    {
        App {
            width: match width {
                Some(w) => w,
                None => DEFAULT_WIDTH,
            },
            height: match height {
                Some(h) => h,
                None => DEFAULT_HEIGHT,
            },
        }
    }

    /// Columns of the board.
    pub fn width(&self) -> (width: u32)
        ensures
            width == self@.0,
    {
        self.width
    }

    /// Rows of the board.
    pub fn height(&self) -> (height: u32)
        ensures
            height == self@.1,
    {
        self.height
    }
}

} // verus!
