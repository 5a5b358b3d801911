//! The ways a run can fail.

use vstd::prelude::*;
use crate::board::BOARD_SIZE;

verus! {

/// Columns the drawing surface must have at least.
pub const MIN_WIDTH: u16 = (BOARD_SIZE + 2) * 2;

/// Rows the drawing surface must have at least.
pub const MIN_HEIGHT: u16 = BOARD_SIZE + 2;

/// A failure that ends the run.
#[derive(Debug, Clone, Copy, PartialEq, Eq, Structural)]
pub enum GameError {
    /// The drawing surface is smaller than the game needs.
    TerminalTooSmall,
    /// The snake fills the board, so no cell is left for a new apple.
    NoFreeCell,
}

impl GameError {
    /// The text of each failure.
    pub open spec fn text(self) -> Seq<char> {
        match self {
            GameError::TerminalTooSmall =>
                "The terminal window must be at least 44x22 characters big"@,
            GameError::NoFreeCell => "No empty cell is left on the board for a new apple"@,
        }
    }

    /// Returns a message that describes the failure.
    pub fn message(&self) -> (m: &'static str)
        ensures
            m@ == self.text(),
    {
        match self {
            GameError::TerminalTooSmall =>
                "The terminal window must be at least 44x22 characters big",
            GameError::NoFreeCell => "No empty cell is left on the board for a new apple",
        }
    }
}

} // verus!
