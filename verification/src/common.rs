//! Coordinates, moves and the fixed-point scores shared by every module.

use vstd::prelude::*;

verus! {

/// A score, counted in tenths of a point: `SCALE` units make one point, so
/// that every value the search produces is a whole number of units.
pub type Score = i64;

/// Number of score units in one point.
pub const SCALE: Score = 10;

/// Material value of a king: one million points.
pub const INFINITY: Score = 1_000_000 * SCALE;

/// Half the width of the widest search window, which runs from minus this
/// bound to plus this bound: ten million points.
pub const BIG_INFINITY: Score = 10 * INFINITY;

/// A square of the board, as file and rank. A position on the board has both
/// coordinates in `0..8`.
#[derive(Debug, Clone, Copy, PartialEq, Eq, Hash, Structural)]
pub struct Position(pub i8, pub i8);

/// The square under the pointer, if the pointer is over the board.
#[derive(Debug, Clone, Copy, PartialEq, Eq)]
pub struct MousePosition {
    pub position: Option<Position>,
}

/// The square picked by the first click, while the second is awaited.
#[derive(Debug, Clone, Copy, PartialEq, Eq)]
pub struct SelectedSquare {
    pub position: Option<Position>,
}

/// A move: the square left and the square reached. Castling and promotion
/// are not recorded here; they follow from the piece moved and its
/// destination when the move is applied.
pub type Move = (Position, Position);

/// Whether file `x` and rank `y` name a square of the board.
pub open spec fn on_board(x: int, y: int) -> bool {
    0 <= x < 8 && 0 <= y < 8
}

impl Position {
    /// Whether this position lies on the board.
    pub open spec fn valid(self) -> bool {
        on_board(self.0 as int, self.1 as int)
    }

    /// Tells whether this position lies on the board.
    pub fn is_valid(&self) -> (r: bool)
        ensures
            r == self.valid(),
    {
        0 <= self.0 && self.0 < 8 && 0 <= self.1 && self.1 < 8
    }
}

} // verus!
