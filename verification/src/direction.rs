//! The four headings of the board and their geometry.

use crate::coord::Coord;
use vstd::prelude::*;

verus! {

/// One of the four headings. `Up` points towards smaller `y`.
#[derive(PartialEq, Eq, Copy, Clone, Debug, Structural)]
pub enum Direction {
    Up,
    Right,
    Down,
    Left,
}

const ROTATE_UP: ((i32, i32), (i32, i32)) = ((1, 0), (0, 1));

const ROTATE_LEFT: ((i32, i32), (i32, i32)) = ((0, 1), (-1, 0));

const ROTATE_DOWN: ((i32, i32), (i32, i32)) = ((-1, 0), (0, -1));

const ROTATE_RIGHT: ((i32, i32), (i32, i32)) = ((0, -1), (1, 0));

impl Direction {
    /// Horizontal component of the unit vector.
    pub open spec fn dx(self) -> int {
        match self {
            Direction::Up => 0,
            Direction::Right => 1,
            Direction::Down => 0,
            Direction::Left => -1,
        }
    }

    /// Vertical component of the unit vector.
    pub open spec fn dy(self) -> int {
        match self {
            Direction::Up => -1,
            Direction::Right => 0,
            Direction::Down => 1,
            Direction::Left => 0,
        }
    }

    /// The heading that points the other way.
    pub open spec fn opposite(self) -> Direction {
        match self {
            Direction::Up => Direction::Down,
            Direction::Right => Direction::Left,
            Direction::Down => Direction::Up,
            Direction::Left => Direction::Right,
        }
    }

    /// The rows of the matrix that turns a vector drawn for `Up` into the
    /// same vector drawn for `self`.
    pub open spec fn matrix(self) -> ((int, int), (int, int)) {
        match self {
            Direction::Up => ((1, 0), (0, 1)),
            Direction::Right => ((0, -1), (1, 0)),
            Direction::Down => ((-1, 0), (0, -1)),
            Direction::Left => ((0, 1), (-1, 0)),
        }
    }

    /// The matrix product `self.matrix() * p`.
    pub open spec fn rotated(self, p: Coord) -> (int, int) {
        let m = self.matrix();
        (p.x * m.0.0 + p.y * m.0.1, p.x * m.1.0 + p.y * m.1.1)
    }

    /// The rotation matrix of this heading, row by row.
    pub fn rotation_matrix(&self) -> (r: &((i32, i32), (i32, i32)))
        ensures
            (((r.0).0 as int, (r.0).1 as int), ((r.1).0 as int, (r.1).1 as int)) == self.matrix(),
    {
        match self {
            Direction::Up => &ROTATE_UP,
            Direction::Right => &ROTATE_RIGHT,
            Direction::Down => &ROTATE_DOWN,
            Direction::Left => &ROTATE_LEFT,
        }
    }

    /// Rotates `p` about the origin by this heading's matrix.
    pub fn rotate(&self, p: &Coord) -> (r: Coord)
        requires
            i32::MIN <= self.rotated(*p).0 <= i32::MAX,
            i32::MIN <= self.rotated(*p).1 <= i32::MAX,
        ensures
            (r.x as int, r.y as int) == self.rotated(*p),
    {
        let rot = self.rotation_matrix();
        let a = (rot.0).0;
        let b = (rot.0).1;
        let c = (rot.1).0;
        let d = (rot.1).1;
        proof {
            let m = self.matrix();
            assert(a == m.0.0 && b == m.0.1 && c == m.1.0 && d == m.1.1);
            assert(-1 <= a <= 1 && -1 <= b <= 1 && -1 <= c <= 1 && -1 <= d <= 1);
            lemma_signed_product(p.x as int, a as int);
            lemma_signed_product(p.y as int, b as int);
            lemma_signed_product(p.x as int, c as int);
            lemma_signed_product(p.y as int, d as int);
        }
        Coord { x: (p.x * a) + (p.y * b), y: (p.x * c) + (p.y * d) }
    }

    /// The heading that points the other way.
    pub fn get_opposite(&self) -> (r: Direction)
        ensures
            r == self.opposite(),
    {
        match self {
            Direction::Up => Direction::Down,
            Direction::Right => Direction::Left,
            Direction::Down => Direction::Up,
            Direction::Left => Direction::Right,
        }
    }

    /// The one heading a snake moving in direction `self` may not turn to.
    pub fn get_disallowed(&self) -> (r: Direction)
        ensures
            r == self.opposite(),
    {
        self.get_opposite()
    }

    /// The unit vector of this heading.
    pub fn direction_get_unit_vector(&self) -> (r: Coord)
        ensures
            r.x == self.dx(),
            r.y == self.dy(),
    {
        match self {
            Direction::Up => Coord::new(0, -1),
            Direction::Right => Coord::new(1, 0),
            Direction::Down => Coord::new(0, 1),
            Direction::Left => Coord::new(-1, 0),
        }
    }

    /// Whether `p` is the unit vector of one of the four headings.
    pub open spec fn is_unit_vector(p: Coord) -> bool {
        exists|d: Direction| p.x == #[trigger] d.dx() && p.y == d.dy()
    }

    /// The heading whose unit vector is `p`.
    pub fn direction_from_unit_vector(p: &Coord) -> (r: Direction)
        requires
            Self::is_unit_vector(*p),
        ensures
            p.x == r.dx(),
            p.y == r.dy(),
    {
        if p.x == 0 && p.y == -1 {
            Direction::Up
        } else if p.x == 1 {
            Direction::Right
        } else if p.x == -1 {
            Direction::Left
        } else {
            Direction::Down
        }
    }
}

/// The product of a number with -1, 0 or 1.
proof fn lemma_signed_product(v: int, s: int)
    requires
        -1 <= s <= 1,
    ensures
        s == 0 ==> v * s == 0,
        s == 1 ==> v * s == v,
        s == -1 ==> v * s == -v,
{
    assert(v * 0 == 0 && v * 1 == v && v * (-1) == -v) by (nonlinear_arith);
}

/// Turning round twice gives the heading one started with.
pub proof fn lemma_opposite_is_involution(d: Direction)
    ensures
        d.opposite().opposite() == d,
        d.opposite() != d,
{
}

/// The unit vector of the opposite heading is the negated unit vector.
pub proof fn lemma_opposite_negates_unit_vector(d: Direction)
    ensures
        d.opposite().dx() == -d.dx(),
        d.opposite().dy() == -d.dy(),
{
}

} // verus!
