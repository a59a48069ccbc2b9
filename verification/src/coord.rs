//! Board coordinates: pairs of signed integers.

use crate::direction::Direction;
use crate::pair::Pair;
use vstd::prelude::*;

verus! {

/// A cell of the board, or an offset between two cells. `x` grows to the
/// right and `y` grows downwards.
pub type Coord = Pair<i32>;

impl Coord {
    /// The coordinate `(x, y)`.
    pub fn new(x: i32, y: i32) -> (r: Coord)
        ensures
            r.x == x,
            r.y == y,
    {
        Coord { x: x, y: y }
    }

    /// The two components as a tuple.
    pub fn as_tuple(&self) -> (r: (i32, i32))
        ensures
            r.0 == self.x,
            r.1 == self.y,
    {
        (self.x, self.y)
    }

    /// The cell one step away in `direction`.
    pub fn calculate_neighbor(&self, direction: Direction) -> (r: Coord)
        requires
            i32::MIN <= self.step(direction).0 <= i32::MAX,
            i32::MIN <= self.step(direction).1 <= i32::MAX,
        ensures
            self.is_step(direction, r),
    {
        let uv = direction.direction_get_unit_vector();
        Coord { x: self.x + uv.x, y: self.y + uv.y }
    }
}

} // verus!
