//! Cell coordinates.

use vstd::prelude::*;

verus! {

/// The coordinate of one cell: a row index and a column index, both counted
/// from zero. Two positions are equal when both indices are.
#[derive(Clone, Copy, Debug, PartialEq, Eq, Hash, Structural)]
pub struct Position {
    pub row: usize,
    pub col: usize,
}

impl Position {
    /// The position at `row` and `col`.
    pub fn new(row: usize, col: usize) -> (pos: Position)
        ensures
            pos.row == row,
            pos.col == col,
    {
        Position { row, col }
    }
}

} // verus!
