//! Proofs that every tick leads from a well-formed state to a well-formed
//! state, and that board and snake agree on every cell unless the head has
//! just moved onto the cell that the tail left.

use crate::coord::Coord;
use crate::grid::ItemType;
use crate::model::{mark_of, seg_on, GameModel, MAX_CELLS, SNAKE_GROWTH_PER_FOOD};
use crate::snake::{
    can_lead, lemma_popped_tail_linked, lemma_pushed_head_linked, lemma_turned_linked,
    CoordWithDirection,
};
use vstd::prelude::*;

verus! {

impl GameModel {
    /// Two segments share a cell only if they are the head and the tail.
    pub open spec fn overlap_at_ends_only(self) -> bool {
        forall|i: int, j: int|
            0 <= i < j < self.body.len() && (#[trigger] self.body[i]).coord == (
            #[trigger] self.body[j]).coord ==> i == 0 && j == self.body.len() - 1
    }

    /// Every segment behind the head that does not share the head's cell is
    /// marked on the board by its place in the snake.
    pub open spec fn trail_marked_behind_head(self) -> bool {
        forall|i: int|
            1 <= i < self.body.len() && (#[trigger] self.body[i]).coord != self.body[0].coord
                ==> self.cells[self.body[i].coord] == mark_of(i, self.body.len() as int)
    }

    /// What holds of a state in the middle of a tick, after the head has
    /// moved and before the tail has followed: as `wf`, but the head may
    /// lie on the cell of the tail, and nothing is said of the growth.
    pub open spec fn mid_tick(self) -> bool {
        &&& self.board_ok()
        &&& self.on_the_board()
        &&& self.overlap_at_ends_only()
        &&& self.trail_marked_behind_head()
        &&& self.marks_owned()
        &&& (self.cells[self.body[0].coord] == ItemType::SnakeHead || self.cells[self.body[0].coord]
            == ItemType::Nothing)
    }

    /// What a state must satisfy for `seg` to become its head: the state is
    /// in order behind the head, and `seg` lies one step from the head on a
    /// cell of the board that holds no segment, or the tail.
    pub open spec fn admits_head(self, seg: CoordWithDirection) -> bool {
        &&& self.board_ok()
        &&& self.on_the_board()
        &&& self.no_overlap()
        &&& self.trail_marked()
        &&& self.marks_owned()
        &&& can_lead(self.body, seg)
        &&& self.covers(seg.coord)
        &&& (!self.cells[seg.coord].is_snake() || self.cells[seg.coord] == ItemType::SnakeTail)
    }
}

/// A state in order for the middle of a tick whose segments do not overlap
/// and whose growth is in bounds is well formed.
pub proof fn lemma_mid_tick_is_wf(m: GameModel)
    requires
        m.mid_tick(),
        m.no_overlap(),
        m.growth_ok(),
    ensures
        m.wf(),
{
    assert forall|i: int| 1 <= i < m.body.len() implies m.cells[(#[trigger] m.body[i]).coord]
        == mark_of(i, m.body.len() as int) by {
        assert(m.body[0].coord != m.body[i].coord);
    }
}

/// The cell one step from a segment is not the cell of that segment.
proof fn lemma_step_leaves_cell(body: Seq<CoordWithDirection>, seg: CoordWithDirection)
    requires
        can_lead(body, seg),
    ensures
        seg.coord != body[0].coord,
{
}

/// Consuming the pending input keeps the state well formed and leaves board
/// and cells of the snake as they were.
pub proof fn lemma_after_input_wf(m: GameModel)
    requires
        m.wf(),
    ensures
        m.after_input().wf(),
        m.after_input().cells == m.cells,
        m.after_input().body.len() == m.body.len(),
        forall|i: int|
            0 <= i < m.body.len() ==> (#[trigger] m.after_input().body[i]).coord
                == m.body[i].coord,
        m.after_input().growing == m.growing,
        m.after_input().heading() == m.accepted_heading(),
        m.consistent() ==> m.after_input().consistent(),
{
    let a = m.after_input();
    lemma_turned_linked(m.body, m.accepted_heading());
    assert forall|i: int| 0 <= i < a.body.len() implies a.covers(#[trigger] a.body[i].coord) by {
        assert(m.covers(m.body[i].coord));
    }
    assert forall|i: int, j: int| 0 <= i < j < a.body.len() implies (#[trigger] a.body[i]).coord
        != (#[trigger] a.body[j]).coord by {
        assert(m.body[i].coord != m.body[j].coord);
    }
    assert forall|i: int| 1 <= i < a.body.len() implies a.cells[(#[trigger] a.body[i]).coord]
        == mark_of(i, a.body.len() as int) by {
        assert(m.cells[m.body[i].coord] == mark_of(i, m.body.len() as int));
    }
    assert forall|c: Coord| a.covers(c) && (#[trigger] a.cells[c]).is_snake() implies a.occupies(
        c,
    ) by {
        assert(m.occupies(c));
        let i = choose|i: int| seg_on(m.body, i, c);
        assert(seg_on(a.body, i, c));
    }
}

/// Dropping food on an empty cell changes nothing behind the head of the
/// snake, and nothing on any other cell.
pub proof fn lemma_with_food_keeps_trail(m: GameModel, respawn: Option<Coord>)
    requires
        m.board_ok(),
        m.on_the_board(),
        m.no_overlap(),
        m.trail_marked(),
        m.marks_owned(),
    ensures
        m.with_food(respawn).board_ok(),
        m.with_food(respawn).on_the_board(),
        m.with_food(respawn).no_overlap(),
        m.with_food(respawn).trail_marked(),
        m.with_food(respawn).marks_owned(),
        m.with_food(respawn).body == m.body,
        m.with_food(respawn).growing == m.growing,
        forall|c: Coord|
            m.covers(c) && m.cells[c] != ItemType::Nothing ==> #[trigger] m.with_food(
                respawn,
            ).cells[c] == m.cells[c],
{
    let f = m.with_food(respawn);
    if m.can_hold_food(respawn) {
        let at = respawn.unwrap();
        assert forall|c: Coord| #[trigger] f.cells.dom().contains(c) <==> f.covers(c) by {
            assert(m.cells.dom().contains(c) <==> m.covers(c));
        }
        assert forall|i: int| 1 <= i < f.body.len() implies f.cells[(#[trigger] f.body[i]).coord]
            == mark_of(i, f.body.len() as int) by {
            assert(m.cells[m.body[i].coord] == mark_of(i, m.body.len() as int));
        }
        assert forall|c: Coord|
            f.covers(c) && (#[trigger] f.cells[c]).is_snake() implies f.occupies(c) by {
            assert(m.cells[c].is_snake());
            assert(m.occupies(c));
        }
    }
}

/// A new head on a free cell, or on the cell of the tail, leaves the state
/// in order for the middle of a tick. The new head overlaps the tail if and
/// only if it lies on the tail's cell.
pub proof fn lemma_advanced_mid_tick(m: GameModel, seg: CoordWithDirection)
    requires
        m.admits_head(seg),
    ensures
        m.advanced(seg).mid_tick(),
        m.advanced(seg).body.len() == m.body.len() + 1,
        m.advanced(seg).cells[seg.coord] == ItemType::SnakeHead,
        m.advanced(seg).body[0] == seg,
        forall|i: int|
            1 <= i <= m.body.len() ==> (#[trigger] m.advanced(seg).body[i]).coord == m.body[i
                - 1].coord,
        m.advanced(seg).growing == m.growing,
        m.advanced(seg).pending == m.pending,
        seg.coord != m.tail_cell() ==> m.advanced(seg).no_overlap(),
        m.cells[seg.coord] != ItemType::SnakeTail ==> seg.coord != m.tail_cell() || m.body.len()
            == 1,
{
    let a = m.advanced(seg);
    let n = m.body.len() as int;
    lemma_pushed_head_linked(m.body, seg);
    lemma_step_leaves_cell(m.body, seg);
    // Where the old segments went.
    assert(a.body[1].coord == m.body[0].coord);
    assert forall|i: int| 1 <= i < n implies #[trigger] a.body[i + 1] == m.body[i] by {}
    assert forall|i: int| 1 <= i <= n implies (#[trigger] a.body[i]).coord == m.body[i
        - 1].coord by {
        if i >= 2 {
            assert(a.body[(i - 1) + 1] == m.body[i - 1]);
        }
    }
    // The target holds no segment but, at most, the tail.
    assert forall|i: int| 0 <= i < n && m.body[i].coord == seg.coord implies i == n - 1 && n
        >= 2 by {
        if i >= 1 {
            assert(m.cells[m.body[i].coord] == mark_of(i, n));
        }
    }
    assert forall|c: Coord| #[trigger] a.cells.dom().contains(c) <==> a.covers(c) by {
        assert(m.cells.dom().contains(c) <==> m.covers(c));
        assert(m.covers(m.body[0].coord));
    }
    assert forall|i: int| 0 <= i < a.body.len() implies a.covers(#[trigger] a.body[i].coord) by {
        if i >= 1 {
            assert(m.covers(m.body[i - 1].coord));
        }
    }
    assert forall|i: int, j: int|
        0 <= i < j < a.body.len() && (#[trigger] a.body[i]).coord == (
        #[trigger] a.body[j]).coord implies i == 0 && j == a.body.len() - 1 by {
        if i >= 1 {
            assert(m.body[i - 1].coord != m.body[j - 1].coord);
        } else {
            assert(m.body[j - 1].coord == seg.coord);
        }
    }
    assert forall|i: int|
        1 <= i < a.body.len() && (#[trigger] a.body[i]).coord
            != a.body[0].coord implies a.cells[a.body[i].coord] == mark_of(
        i,
        a.body.len() as int,
    ) by {
        if i >= 2 {
            assert(m.cells[m.body[i - 1].coord] == mark_of(i - 1, n));
            assert(m.body[0].coord != m.body[i - 1].coord);
        }
    }
    assert forall|c: Coord| a.covers(c) && (#[trigger] a.cells[c]).is_snake() implies a.occupies(
        c,
    ) by {
        if c == seg.coord {
            assert(seg_on(a.body, 0, c));
        } else if c == m.body[0].coord {
            assert(seg_on(a.body, 1, c));
        } else {
            assert(m.cells[c].is_snake());
            assert(m.occupies(c));
            let i = choose|i: int| seg_on(m.body, i, c);
            assert(seg_on(a.body, i + 1, c));
        }
    }
    if seg.coord != m.tail_cell() {
        assert forall|i: int, j: int| 0 <= i < j < a.body.len() implies (#[trigger] a.body[i]).coord
            != (#[trigger] a.body[j]).coord by {
            if i >= 1 {
                assert(m.body[i - 1].coord != m.body[j - 1].coord);
            } else if m.body[j - 1].coord == seg.coord {
                assert(j - 1 == n - 1);
            }
        }
    }
    if m.cells[seg.coord] != ItemType::SnakeTail && seg.coord == m.tail_cell() && n >= 2 {
        assert(m.cells[m.body[n - 1].coord] == mark_of(n - 1, n));
    }
}

/// Drawing in the tail of a state that is in order for the middle of a
/// tick leaves it so, and leaves no two segments on one cell. The cell of
/// the head keeps its mark unless the tail lay on it.
pub proof fn lemma_retracted_mid_tick(m: GameModel)
    requires
        m.mid_tick(),
        m.body.len() >= 2,
    ensures
        m.retracted().mid_tick(),
        m.retracted().no_overlap(),
        m.retracted().body.len() == m.body.len() - 1,
        forall|i: int|
            0 <= i < m.body.len() - 1 ==> (#[trigger] m.retracted().body[i]).coord
                == m.body[i].coord,
        m.retracted().body[0].coord == m.body[0].coord,
        m.retracted().body[0].dir_next == m.body[0].dir_next,
        m.retracted().growing == m.growing,
        m.retracted().pending == m.pending,
        m.body[0].coord != m.tail_cell() ==> m.retracted().cells[m.body[0].coord]
            == m.cells[m.body[0].coord],
        m.body[0].coord == m.tail_cell() ==> m.retracted().cells[m.body[0].coord]
            == ItemType::Nothing,
        m.retracted().cells[m.tail_cell()] == ItemType::Nothing,
        m.body.len() >= 3 ==> m.retracted().cells[m.body[m.body.len() - 2].coord]
            == ItemType::SnakeTail,
{
    let r = m.retracted();
    let n = m.body.len() as int;
    let gone = m.body[n - 1].coord;
    lemma_popped_tail_linked(m.body);
    assert forall|i: int| 0 <= i < n - 1 implies (#[trigger] r.body[i]).coord
        == m.body[i].coord by {}
    assert(m.covers(m.body[n - 1].coord));
    assert(m.covers(m.body[n - 2].coord));
    assert forall|c: Coord| #[trigger] r.cells.dom().contains(c) <==> r.covers(c) by {
        assert(m.cells.dom().contains(c) <==> m.covers(c));
    }
    assert forall|i: int| 0 <= i < r.body.len() implies r.covers(#[trigger] r.body[i].coord) by {
        assert(m.covers(m.body[i].coord));
    }
    assert forall|i: int, j: int| 0 <= i < j < r.body.len() implies (#[trigger] r.body[i]).coord
        != (#[trigger] r.body[j]).coord by {
        if m.body[i].coord == m.body[j].coord {
            assert(j == n - 1);
        }
    }
    // No segment that stays lies on the cell that the tail left, but
    // perhaps the head.
    assert forall|i: int| 1 <= i < n - 1 implies (#[trigger] m.body[i]).coord != gone by {
        if m.body[i].coord == m.body[n - 1].coord {
            assert(i == 0);
        }
    }
    if n >= 3 {
        if m.body[0].coord == m.body[n - 2].coord {
            assert(n - 2 == n - 1);
        }
    }
    assert forall|i: int|
        1 <= i < r.body.len() && (#[trigger] r.body[i]).coord
            != r.body[0].coord implies r.cells[r.body[i].coord] == mark_of(
        i,
        r.body.len() as int,
    ) by {
        assert(m.body[i].coord != gone);
        if i < n - 2 {
            assert(m.body[i].coord != m.body[0].coord);
            assert(m.cells[m.body[i].coord] == mark_of(i, n));
            if m.body[i].coord == m.body[n - 2].coord {
                assert(i == 0);
            }
        }
    }
    assert forall|c: Coord| r.covers(c) && (#[trigger] r.cells[c]).is_snake() implies r.occupies(
        c,
    ) by {
        if n >= 3 && c == m.body[n - 2].coord {
            assert(seg_on(r.body, n - 2, c));
        } else {
            assert(c != gone);
            assert(m.cells[c].is_snake());
            assert(m.occupies(c));
            let i = choose|i: int| seg_on(m.body, i, c);
            assert(seg_on(r.body, i, c));
        }
    }
}

/// Neither side of a board is longer than the number of its cells, so
/// every coordinate on it is far from the limits of `i32`.
pub proof fn lemma_board_sides(m: GameModel)
    requires
        m.board_ok(),
    ensures
        m.width <= MAX_CELLS,
        m.height <= MAX_CELLS,
        forall|c: Coord|
            m.covers(c) ==> -(MAX_CELLS as int) <= c.x <= MAX_CELLS && -(MAX_CELLS as int) <= c.y
                <= MAX_CELLS,
{
    assert(m.width <= m.width * m.height && m.height <= m.width * m.height) by (nonlinear_arith)
        requires
            1 <= m.width,
            1 <= m.height,
    ;
}

/// The pending growth after one tick has used it: one unit of growth is
/// spent, or one unit of a debt is paid.
pub open spec fn spent(growing: int) -> int {
    if growing > 0 {
        growing - 1
    } else if growing == 0 {
        0
    } else {
        growing + 1
    }
}

/// The number of segments by which a tick draws the tail in: none while
/// there is growth to spend, one when there is none, two while there is a
/// debt.
pub open spec fn drawn_in(growing: int) -> int {
    if growing > 0 {
        0
    } else if growing == 0 {
        1
    } else {
        2
    }
}

/// After the head has moved, letting the tail follow gives a well-formed
/// state. The heading stays, and the sum of length and pending growth
/// drops by the one cell that the head has just gained.
pub proof fn lemma_settled_wf(m: GameModel)
    requires
        m.mid_tick(),
        m.body.len() >= 2,
        m.growing > 0 ==> m.no_overlap(),
        m.growing <= 2 * m.body.len() + 1,
        m.body.len() + m.growing >= 2,
    ensures
        m.settled().wf(),
        m.settled().width == m.width,
        m.settled().height == m.height,
        m.settled().body[0].coord == m.body[0].coord,
        m.settled().heading() == m.heading(),
        m.settled().pending == m.pending,
        m.settled().body.len() + m.settled().growing == m.body.len() + m.growing - 1,
        m.settled().growing == spent(m.growing),
        m.settled().body.len() == m.body.len() - drawn_in(m.growing),
        forall|i: int|
            0 <= i < m.settled().body.len() ==> (#[trigger] m.settled().body[i]).coord
                == m.body[i].coord,
        m.no_overlap() && m.cells[m.body[0].coord] == ItemType::SnakeHead
            ==> m.settled().consistent(),
{
    if m.growing > 0 {
        let s = m.settled();
        assert(s.body == m.body && s.cells == m.cells);
        lemma_mid_tick_is_wf(GameModel { growing: m.growing - 1, ..m });
    } else if m.growing == 0 {
        lemma_retracted_mid_tick(m);
        lemma_mid_tick_is_wf(m.retracted());
        if m.no_overlap() {
            assert(m.body[0].coord != m.body[m.body.len() - 1].coord);
        }
    } else {
        let once = m.retracted();
        lemma_retracted_mid_tick(m);
        lemma_retracted_mid_tick(once);
        let twice = once.retracted();
        lemma_mid_tick_is_wf(GameModel { growing: twice.growing + 1, ..twice });
        assert(once.body[0].coord != once.body[once.body.len() - 1].coord);
        if m.no_overlap() {
            assert(m.body[0].coord != m.body[m.body.len() - 1].coord);
        }
        assert forall|i: int| 0 <= i < twice.body.len() implies (#[trigger] twice.body[i]).coord
            == m.body[i].coord by {
            assert(once.body[i].coord == m.body[i].coord);
        }
    }
}

/// The cell ahead of the head of a well-formed state that can advance is a
/// cell of the board one step from the head, and the head may become the
/// segment `next_head()`.
pub proof fn lemma_next_head_admitted(m: GameModel)
    requires
        m.wf(),
        m.can_advance(),
    ensures
        m.covers(m.ahead_cell()),
        m.body[0].coord.is_step(m.heading(), m.ahead_cell()),
        m.admits_head(m.next_head()),
        m.ahead_cell() != m.body[0].coord,
        m.cells[m.ahead_cell()] != ItemType::SnakeTail ==> m.ahead_cell() != m.tail_cell(),
        m.cells[m.ahead_cell()] == ItemType::SnakeTail ==> m.ahead_cell() == m.tail_cell(),
{
    lemma_board_sides(m);
    let c = m.ahead_cell();
    assert(m.covers(m.body[0].coord));
    assert(m.covers(c));
    let n = m.body.len() as int;
    if m.cells[c] != ItemType::SnakeTail && n >= 2 {
        assert(m.cells[m.body[n - 1].coord] == mark_of(n - 1, n));
    }
    if m.cells[c] == ItemType::SnakeTail {
        assert(m.occupies(c));
        let i = choose|i: int| seg_on(m.body, i, c);
        if 1 <= i {
            assert(m.cells[m.body[i].coord] == mark_of(i, n));
        }
    }
}

/// One attempt to move keeps the state well formed. If the snake cannot
/// move, nothing changes. If it moves, the heading stays, and the sum of
/// length and pending growth stays too, or rises by the growth of one item
/// of food if the step eats. Board and snake agree afterwards unless the
/// head moved onto the cell of the tail.
pub proof fn lemma_moved_wf(m: GameModel, respawn: Option<Coord>)
    requires
        m.wf(),
    ensures
        m.moved(respawn).wf(),
        m.moved(respawn).width == m.width,
        m.moved(respawn).height == m.height,
        m.moved(respawn).heading() == m.heading(),
        m.moved(respawn).pending == m.pending,
        !m.can_advance() ==> m.moved(respawn) == m,
        m.can_advance() ==> m.moved(respawn).body[0].coord == m.ahead_cell(),
        m.can_advance() && !m.eats_ahead() ==> m.moved(respawn).body.len() + m.moved(
            respawn,
        ).growing == m.body.len() + m.growing,
        m.eats_ahead() ==> m.moved(respawn).body.len() + m.moved(respawn).growing == m.body.len()
            + m.growing + SNAKE_GROWTH_PER_FOOD,
        m.can_advance() ==> m.moved(respawn).growing == spent(m.growth_to_settle()),
        m.can_advance() ==> m.moved(respawn).body.len() == m.body.len() + 1 - drawn_in(
            m.growth_to_settle(),
        ),
        m.can_advance() ==> forall|i: int|
            1 <= i < m.moved(respawn).body.len() ==> (#[trigger] m.moved(respawn).body[i]).coord
                == m.body[i - 1].coord,
        m.can_advance() && m.ahead_cell() != m.tail_cell() ==> m.moved(respawn).consistent(),
{
    if m.can_advance() {
        lemma_next_head_admitted(m);
        let seg = m.next_head();
        if m.eats_ahead() {
            let grown = GameModel { growing: m.growing + SNAKE_GROWTH_PER_FOOD, ..m };
            lemma_with_food_keeps_trail(grown, respawn);
            let f = m.fed(respawn);
            assert(f == grown.with_food(respawn));
            assert(f.cells[seg.coord] == ItemType::Food);
            assert(f.admits_head(seg));
            lemma_advanced_mid_tick(f, seg);
            lemma_settled_wf(f.advanced(seg));
            let s = f.advanced(seg).settled();
            assert forall|i: int| 1 <= i < s.body.len() implies (#[trigger] s.body[i]).coord
                == m.body[i - 1].coord by {
                assert(f.advanced(seg).body[i].coord == f.body[i - 1].coord);
            }
        } else {
            lemma_advanced_mid_tick(m, seg);
            lemma_settled_wf(m.advanced(seg));
            let s = m.advanced(seg).settled();
            assert forall|i: int| 1 <= i < s.body.len() implies (#[trigger] s.body[i]).coord
                == m.body[i - 1].coord by {
                assert(m.advanced(seg).body[i].coord == m.body[i - 1].coord);
            }
        }
    }
}

/// One tick keeps the state well formed.
pub proof fn lemma_step_wf(m: GameModel, respawn: Option<Coord>)
    requires
        m.wf(),
    ensures
        m.step(respawn).wf(),
        m.step(respawn).width == m.width,
        m.step(respawn).height == m.height,
        m.step(respawn).pending is None,
{
    lemma_after_input_wf(m);
    lemma_moved_wf(m.after_input(), respawn);
}

/// Food dropped on an empty cell other than the cell of the head keeps the
/// state well formed, and keeps board and snake in agreement if they were.
pub proof fn lemma_with_food_wf(m: GameModel, respawn: Option<Coord>)
    requires
        m.wf(),
        respawn matches Some(c) ==> c != m.body[0].coord,
    ensures
        m.with_food(respawn).wf(),
        m.consistent() ==> m.with_food(respawn).consistent(),
{
    lemma_with_food_keeps_trail(m, respawn);
    assert(m.covers(m.body[0].coord));
}

} // verus!
