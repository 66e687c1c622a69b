//! The board coordinate system.

use vstd::prelude::*;

verus! {

/// Number of playable columns.
pub const WIDTH: i32 = 10;

/// Number of visible rows. A piece may occupy rows at or above this limit
/// while it is still in the spawn buffer over the visible board; only the
/// left, right and bottom edges reject cells.
pub const HEIGHT: i32 = 16;

/// A grid coordinate: column grows to the right, row grows upward.
#[derive(Clone, Copy, PartialEq, Eq, Structural, Hash, Debug)]
pub struct Coord {
    pub col: i32,
    pub row: i32,
}

impl Coord {
    /// A playable cell: inside the side walls and not below the floor.
    /// There is no upper limit on the row (spawn buffer).
    pub open spec fn spec_in_bounds(self) -> bool {
        0 <= self.col < WIDTH && 0 <= self.row
    }

    pub fn new(col: i32, row: i32) -> (c: Coord)
        ensures
            c == (Coord { col, row }),
    {
        Coord { col, row }
    }

    pub fn in_bounds(&self) -> (r: bool)
        ensures
            r == self.spec_in_bounds(),
    {
        self.col >= 0 && self.col < WIDTH && self.row >= 0
    }
}

} // verus!
