//! The snake: an ordered run of segments from the head to the tail, and the
//! number of cells it still has to grow.

use crate::coord::Coord;
use crate::direction::Direction;
use std::collections::VecDeque;
use vstd::prelude::*;

verus! {

/// One segment of the snake.
///
/// `dir_next` is the heading on which the segment leaves its cell: for the
/// head, the heading of the snake. `dir_prev` points from the segment to
/// the segment behind it; the tail has nothing behind it.
#[derive(Copy, Clone, Debug, PartialEq, Eq)]
pub struct CoordWithDirection {
    pub dir_next: Direction,
    pub coord: Coord,
    pub dir_prev: Option<Direction>,
}

impl CoordWithDirection {
    /// The direction from this segment's cell to the cell of `other`, when
    /// the two cells are side by side.
    pub fn direction_to(&self, other: &Self) -> (r: Option<Direction>)
        ensures
            r == self.coord.spec_direction_to(other.coord),
            forall|d: Direction| r == Some(d) <==> self.coord.is_step(d, other.coord),
    {
        self.coord.direction_to(&other.coord)
    }
}

/// The one segment of a snake that is all head: it lies on `at`, heads
/// `heading`, and has nothing behind it.
pub open spec fn lone_segment(at: Coord, heading: Direction) -> CoordWithDirection {
    CoordWithDirection { dir_next: heading, coord: at, dir_prev: None }
}

/// `front` is the segment that directly precedes `back`: it lies one step
/// from `back` on `back`'s heading, and it points back at `back`.
pub open spec fn follows(front: CoordWithDirection, back: CoordWithDirection) -> bool {
    &&& back.coord.is_step(back.dir_next, front.coord)
    &&& front.dir_prev == Some(back.dir_next.opposite())
}

/// Segment `i` of `body` directly precedes segment `i + 1`.
pub open spec fn link_ok(body: Seq<CoordWithDirection>, i: int) -> bool {
    follows(body[i], body[i + 1])
}

/// `body` is a snake: it has a head, each segment directly precedes the
/// next one, and nothing lies behind the last.
pub open spec fn linked(body: Seq<CoordWithDirection>) -> bool {
    &&& body.len() >= 1
    &&& body.last().dir_prev is None
    &&& forall|i: int| 0 <= i < body.len() - 1 ==> #[trigger] link_ok(body, i)
}

/// `seg` can become the new head of `body`: it lies one step from the head
/// and points back at it.
pub open spec fn can_lead(body: Seq<CoordWithDirection>, seg: CoordWithDirection) -> bool {
    &&& body.len() >= 1
    &&& seg.dir_prev matches Some(p)
    &&& body[0].coord.is_step(p.opposite(), seg.coord)
}

/// `body` with `seg` as its new head. The segment that was the head now
/// heads for the cell of `seg`.
pub open spec fn pushed_head(body: Seq<CoordWithDirection>, seg: CoordWithDirection) -> Seq<
    CoordWithDirection,
> {
    let towards = match seg.dir_prev {
        Some(p) => p.opposite(),
        None => body[0].dir_next,
    };
    seq![seg] + body.update(0, CoordWithDirection { dir_next: towards, ..body[0] })
}

/// `body` without its last segment. The segment that is last now has
/// nothing behind it.
pub open spec fn popped_tail(body: Seq<CoordWithDirection>) -> Seq<CoordWithDirection> {
    let rest = body.drop_last();
    rest.update(rest.len() - 1, CoordWithDirection { dir_prev: None, ..rest.last() })
}

/// `body` with one more segment behind its tail, on cell `c`, heading for
/// the segment that was the tail.
pub open spec fn pushed_tail(body: Seq<CoordWithDirection>, c: Coord, towards: Direction) -> Seq<
    CoordWithDirection,
> {
    body.update(
        body.len() - 1,
        CoordWithDirection { dir_prev: Some(towards.opposite()), ..body.last() },
    ).push(CoordWithDirection { dir_next: towards, coord: c, dir_prev: None })
}

/// `body` with its head turned to heading `d`.
pub open spec fn turned(body: Seq<CoordWithDirection>, d: Direction) -> Seq<CoordWithDirection> {
    body.update(0, CoordWithDirection { dir_next: d, ..body[0] })
}

/// A new head keeps the snake in one piece.
pub proof fn lemma_pushed_head_linked(body: Seq<CoordWithDirection>, seg: CoordWithDirection)
    requires
        linked(body),
        can_lead(body, seg),
    ensures
        linked(pushed_head(body, seg)),
        pushed_head(body, seg).len() == body.len() + 1,
        pushed_head(body, seg)[0] == seg,
        forall|i: int| 1 <= i < body.len() ==> pushed_head(body, seg)[i + 1] == body[i],
        pushed_head(body, seg)[1].coord == body[0].coord,
{
    let after = pushed_head(body, seg);
    assert forall|i: int| 0 <= i < after.len() - 1 implies #[trigger] link_ok(after, i) by {
        if i >= 1 {
            assert(link_ok(body, i - 1));
        }
    }
}

/// Dropping the tail keeps the snake in one piece.
pub proof fn lemma_popped_tail_linked(body: Seq<CoordWithDirection>)
    requires
        linked(body),
        body.len() >= 2,
    ensures
        linked(popped_tail(body)),
        popped_tail(body).len() == body.len() - 1,
        forall|i: int| 0 <= i < body.len() - 1 ==> popped_tail(body)[i].coord == body[i].coord,
        forall|i: int|
            0 <= i < body.len() - 1 ==> popped_tail(body)[i].dir_next == body[i].dir_next,
{
    let after = popped_tail(body);
    assert forall|i: int| 0 <= i < after.len() - 1 implies #[trigger] link_ok(after, i) by {
        assert(link_ok(body, i));
    }
}

/// A new tail keeps the snake in one piece.
pub proof fn lemma_pushed_tail_linked(body: Seq<CoordWithDirection>, c: Coord, towards: Direction)
    requires
        linked(body),
        c.is_step(towards, body.last().coord),
    ensures
        linked(pushed_tail(body, c, towards)),
        pushed_tail(body, c, towards).len() == body.len() + 1,
        forall|i: int|
            0 <= i < body.len() ==> pushed_tail(body, c, towards)[i].coord == body[i].coord,
        pushed_tail(body, c, towards).last().coord == c,
{
    let after = pushed_tail(body, c, towards);
    assert forall|i: int| 0 <= i < after.len() - 1 implies #[trigger] link_ok(after, i) by {
        if i < body.len() - 1 {
            assert(link_ok(body, i));
        }
    }
}

/// Turning the head keeps the snake in one piece.
pub proof fn lemma_turned_linked(body: Seq<CoordWithDirection>, d: Direction)
    requires
        linked(body),
    ensures
        linked(turned(body, d)),
        turned(body, d).len() == body.len(),
{
    let after = turned(body, d);
    assert forall|i: int| 0 <= i < after.len() - 1 implies #[trigger] link_ok(after, i) by {
        assert(link_ok(body, i));
    }
}

/// The body of the snake, head first, and its pending growth.
pub struct SnakeType {
    body: VecDeque<CoordWithDirection>,
    growing: i32,
}

impl View for SnakeType {
    type V = Seq<CoordWithDirection>;

    /// The segments, head first.
    closed spec fn view(&self) -> Seq<CoordWithDirection> {
        self.body@
    }
}

impl SnakeType {
    /// The number of cells the snake still has to grow. A negative number
    /// is a debt: that many extra segments are still to be dropped.
    pub closed spec fn spec_growing(&self) -> int {
        self.growing as int
    }

    /// The segments form a snake.
    pub open spec fn wf(&self) -> bool {
        linked(self@)
    }

    /// A snake of one segment on cell `at`, heading `heading`, with nothing
    /// to grow.
    pub fn new(at: Coord, heading: Direction) -> (s: SnakeType)
        ensures
            s.wf(),
            s@ == seq![lone_segment(at, heading)],
            s.spec_growing() == 0,
    {
        let mut body: VecDeque<CoordWithDirection> = VecDeque::new();
        body.push_back(CoordWithDirection { dir_next: heading, coord: at, dir_prev: None });
        let s = SnakeType { body: body, growing: 0 };
        assert(s@ =~= seq![lone_segment(at, heading)]);
        s
    }

    /// The segments, head first.
    pub fn get_body(&self) -> (r: &VecDeque<CoordWithDirection>)
        ensures
            r@ == self@,
    {
        &(self.body)
    }

    /// The pending growth.
    pub fn get_growing(&self) -> (r: i32)
        ensures
            r == self.spec_growing(),
    {
        self.growing
    }

    /// The number of segments.
    pub fn len(&self) -> (r: usize)
        ensures
            r == self@.len(),
    {
        self.body.len()
    }

    /// The first segment.
    pub fn head(&self) -> (r: CoordWithDirection)
        requires
            self@.len() >= 1,
        ensures
            r == self@[0],
    {
        self.body[0]
    }

    /// The last segment.
    pub fn tail(&self) -> (r: CoordWithDirection)
        requires
            self@.len() >= 1,
        ensures
            r == self@.last(),
    {
        self.body[self.body.len() - 1]
    }

    /// Sets the pending growth.
    pub fn set_growing(&mut self, growing: i32)
        ensures
            final(self)@ == old(self)@,
            final(self).spec_growing() == growing,
    {
        self.growing = growing;
    }

    /// Turns the head to heading `d`.
    pub fn set_heading(&mut self, d: Direction)
        requires
            old(self)@.len() >= 1,
        ensures
            final(self)@ == turned(old(self)@, d),
            final(self).spec_growing() == old(self).spec_growing(),
    {
        let head = self.body.pop_front();
        match head {
            Some(h) => {
                self.body.push_front(CoordWithDirection { dir_next: d, ..h });
            },
            None => {},
        }
        assert(final(self)@ =~= turned(old(self)@, d));
    }

    /// Puts `segment` in front of the head. The segment that was the head
    /// is turned towards the new one.
    pub fn push_head(&mut self, segment: CoordWithDirection)
        requires
            old(self)@.len() >= 1,
        ensures
            final(self)@ == pushed_head(old(self)@, segment),
            final(self).spec_growing() == old(self).spec_growing(),
            old(self).wf() && can_lead(old(self)@, segment) ==> final(self).wf(),
    {
        let head = self.body.pop_front();
        match head {
            Some(h) => {
                let towards = match segment.dir_prev {
                    Some(p) => p.get_opposite(),
                    None => h.dir_next,
                };
                self.body.push_front(CoordWithDirection { dir_next: towards, ..h });
            },
            None => {},
        }
        self.body.push_front(segment);
        proof {
            assert(final(self)@ =~= pushed_head(old(self)@, segment));
            if old(self).wf() && can_lead(old(self)@, segment) {
                lemma_pushed_head_linked(old(self)@, segment);
            }
        }
    }

    /// Removes the tail and returns it. The segment in front of it becomes
    /// the tail.
    pub fn pop_tail(&mut self) -> (r: CoordWithDirection)
        requires
            old(self)@.len() >= 2,
        ensures
            r == old(self)@.last(),
            final(self)@ == popped_tail(old(self)@),
            final(self).spec_growing() == old(self).spec_growing(),
            old(self).wf() ==> final(self).wf(),
    {
        let last = self.body.pop_back();
        let before_last = self.body.pop_back();
        match before_last {
            Some(b) => {
                self.body.push_back(CoordWithDirection { dir_prev: None, ..b });
            },
            None => {},
        }
        proof {
            assert(final(self)@ =~= popped_tail(old(self)@));
            if old(self).wf() {
                lemma_popped_tail_linked(old(self)@);
            }
        }
        match last {
            Some(l) => l,
            None => CoordWithDirection {
                dir_next: Direction::Up,
                coord: Coord { x: 0, y: 0 },
                dir_prev: None,
            },
        }
    }

    /// Puts a new tail on cell `c`, behind the segment that was the tail.
    /// Nothing is done, and `false` returned, unless `c` lies next to the
    /// cell of that segment.
    pub fn push_tail(&mut self, c: Coord) -> (r: bool)
        requires
            old(self)@.len() >= 1,
        ensures
            final(self).spec_growing() == old(self).spec_growing(),
            r == c.spec_direction_to(old(self)@.last().coord).is_some(),
            r ==> final(self)@ == pushed_tail(
                old(self)@,
                c,
                c.spec_direction_to(old(self)@.last().coord).unwrap(),
            ),
            !r ==> final(self)@ == old(self)@,
            old(self).wf() ==> final(self).wf(),
    {
        let last = self.tail();
        match c.direction_to(&last.coord) {
            Some(towards) => {
                let _ = self.body.pop_back();
                self.body.push_back(
                    CoordWithDirection { dir_prev: Some(towards.get_opposite()), ..last },
                );
                self.body.push_back(
                    CoordWithDirection { dir_next: towards, coord: c, dir_prev: None },
                );
                proof {
                    assert(final(self)@ =~= pushed_tail(old(self)@, c, towards));
                    if old(self).wf() {
                        lemma_pushed_tail_linked(old(self)@, c, towards);
                    }
                }
                true
            },
            None => false,
        }
    }
}

} // verus!
