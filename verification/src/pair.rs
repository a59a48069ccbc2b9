//! A pair of values of one type, used for points and offsets on the board.

use crate::direction::Direction;
use vstd::prelude::*;

verus! {

/// Two values of the same type, named `x` and `y`.
#[derive(Copy, Debug, PartialEq, Eq, Structural)]
pub struct Pair<T: Copy> {
    pub x: T,
    pub y: T,
}

impl<T: Copy> Clone for Pair<T> {
    fn clone(&self) -> (r: Self)
        ensures
            r == *self,
    {
        *self
    }
}

impl<T: Copy> Pair<T> {
    /// The first component.
    pub fn get_x(&self) -> (r: T)
        ensures
            r == self.x,
    {
        self.x
    }

    /// The second component.
    pub fn get_y(&self) -> (r: T)
        ensures
            r == self.y,
    {
        self.y
    }
}

impl std::ops::Sub<Pair<i32>> for Pair<i32> {
    type Output = Pair<i32>;

    /// The difference of two pairs, component by component.
    fn sub(self, rhs: Pair<i32>) -> (r: Pair<i32>) {
        Pair { x: self.x - rhs.x, y: self.y - rhs.y }
    }
}

impl vstd::std_specs::ops::SubSpecImpl<Pair<i32>> for Pair<i32> {
    open spec fn obeys_sub_spec() -> bool {
        true
    }

    open spec fn sub_req(self, rhs: Pair<i32>) -> bool {
        &&& i32::MIN <= self.x - rhs.x <= i32::MAX
        &&& i32::MIN <= self.y - rhs.y <= i32::MAX
    }

    open spec fn sub_spec(self, rhs: Pair<i32>) -> Pair<i32> {
        Pair { x: (self.x - rhs.x) as i32, y: (self.y - rhs.y) as i32 }
    }
}

impl Pair<i32> {
    /// The cell one step away from `self` in direction `d`, as mathematical
    /// integers: no wrap-around at the limits of `i32`.
    pub open spec fn step(self, d: Direction) -> (int, int) {
        (self.x + d.dx(), self.y + d.dy())
    }

    /// Whether `other` is the cell one step away from `self` in direction `d`.
    pub open spec fn is_step(self, d: Direction, other: Pair<i32>) -> bool {
        self.step(d) == (other.x as int, other.y as int)
    }

    /// The direction of the single step that leads from `self` to `other`,
    /// if the two cells are side by side.
    pub open spec fn spec_direction_to(self, other: Pair<i32>) -> Option<Direction> {
        if self.is_step(Direction::Up, other) {
            Some(Direction::Up)
        } else if self.is_step(Direction::Right, other) {
            Some(Direction::Right)
        } else if self.is_step(Direction::Down, other) {
            Some(Direction::Down)
        } else if self.is_step(Direction::Left, other) {
            Some(Direction::Left)
        } else {
            None
        }
    }

    /// The offset that leads from `other` to `self`: `self - other`,
    /// component by component.
    pub fn unit_vector_to(&self, other: &Self) -> (r: Pair<i32>)
        requires
            i32::MIN <= self.x - other.x <= i32::MAX,
            i32::MIN <= self.y - other.y <= i32::MAX,
        ensures
            r.x == self.x - other.x,
            r.y == self.y - other.y,
    {
        *self - *other
    }

    /// The direction from `self` to `other` when `other` is one of the four
    /// cells next to `self`; `None` for equal, diagonal or distant cells.
    pub fn direction_to(&self, other: &Self) -> (r: Option<Direction>)
        ensures
            r == self.spec_direction_to(*other),
            forall|d: Direction| r == Some(d) <==> self.is_step(d, *other),
    {
        if self.y == other.y {
            if self.x < i32::MAX && other.x == self.x + 1 {
                return Some(Direction::Right);
            } else if self.x > i32::MIN && other.x == self.x - 1 {
                return Some(Direction::Left);
            }
        } else if self.x == other.x {
            if self.y < i32::MAX && other.y == self.y + 1 {
                return Some(Direction::Down);
            } else if self.y > i32::MIN && other.y == self.y - 1 {
                return Some(Direction::Up);
            }
        }
        None
    }
}

} // verus!
