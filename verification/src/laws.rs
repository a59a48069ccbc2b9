//! What holds of every game: the laws of the marks on the board, of
//! turning, and of growth.

use crate::coord::Coord;
use crate::grid::ItemType;
use crate::inputtype::InputType;
use crate::invariants::{
    drawn_in, lemma_advanced_mid_tick, lemma_after_input_wf, lemma_moved_wf,
    lemma_next_head_admitted, lemma_retracted_mid_tick, lemma_step_wf, spent,
};
use crate::model::{mark_of, seg_on, GameModel, StateTransition, SNAKE_GROWTH_PER_FOOD};
use crate::snake::CoordWithDirection;
use vstd::math::min;
use vstd::prelude::*;

verus! {

impl GameModel {
    /// The length that the snake has once its pending growth is spent or
    /// its debt is paid, if it eats nothing more.
    pub open spec fn full_length(self) -> int {
        self.body.len() + self.growing
    }

    /// The cells of the board that are marked as part of the snake.
    pub open spec fn marked_cells(self) -> Set<Coord> {
        Set::new(|c: Coord| self.covers(c) && self.cells[c].is_snake())
    }

    /// The cells on which a segment of the snake lies.
    pub open spec fn body_cells(self) -> Set<Coord> {
        Set::new(|c: Coord| self.occupies(c))
    }

    /// Whether food lies on the cell `c` of the board.
    pub open spec fn holds_food(self, c: Coord) -> bool {
        self.covers(c) && self.cells[c] == ItemType::Food
    }

    /// Food lies on one cell of the board at most.
    pub open spec fn at_most_one_food(self) -> bool {
        forall|a: Coord, b: Coord|
            #![trigger self.holds_food(a), self.holds_food(b)]
            self.holds_food(a) && self.holds_food(b) ==> a == b
    }
}

/// While board and snake agree, the cell of each segment carries the mark
/// of the segment's place: the first is the head, the last of two or more
/// is the tail, all between are parts of the body. So exactly one cell is
/// marked as the head, namely the cell of the first segment, and a cell is
/// marked as the tail exactly if the snake has two segments or more and the
/// last one lies on it.
pub proof fn lemma_marks_follow_places(m: GameModel)
    requires
        m.consistent(),
    ensures
        forall|i: int|
            0 <= i < m.body.len() ==> m.cells[(#[trigger] m.body[i]).coord] == mark_of(
                i,
                m.body.len() as int,
            ),
        forall|c: Coord|
            m.covers(c) ==> (#[trigger] m.cells[c] == ItemType::SnakeHead <==> c
                == m.body[0].coord),
        forall|c: Coord|
            m.covers(c) ==> (#[trigger] m.cells[c] == ItemType::SnakeTail <==> m.body.len() >= 2
                && c == m.tail_cell()),
        forall|c: Coord, i: int|
            m.covers(c) && #[trigger] seg_on(m.body, i, c) ==> (m.cells[c] == ItemType::SnakeBit
                <==> 0 < i < m.body.len() - 1),
{
    let n = m.body.len() as int;
    assert forall|c: Coord| m.covers(c) implies (#[trigger] m.cells[c] == ItemType::SnakeHead <==> c
        == m.body[0].coord) by {
        if m.cells[c] == ItemType::SnakeHead {
            assert(m.occupies(c));
            let i = choose|i: int| seg_on(m.body, i, c);
            if i >= 1 {
                assert(m.cells[m.body[i].coord] == mark_of(i, n));
            }
        }
    }
    assert forall|c: Coord| m.covers(c) implies (#[trigger] m.cells[c] == ItemType::SnakeTail
        <==> n >= 2 && c == m.tail_cell()) by {
        if m.cells[c] == ItemType::SnakeTail {
            assert(m.occupies(c));
            let i = choose|i: int| seg_on(m.body, i, c);
            if i >= 1 {
                assert(m.cells[m.body[i].coord] == mark_of(i, n));
            }
        }
        if n >= 2 {
            assert(m.cells[m.body[n - 1].coord] == mark_of(n - 1, n));
        }
    }
    assert forall|c: Coord, i: int| m.covers(c) && #[trigger] seg_on(m.body, i, c) implies (
    m.cells[c] == ItemType::SnakeBit <==> 0 < i < n - 1) by {
        if i >= 1 {
            assert(m.cells[m.body[i].coord] == mark_of(i, n));
        }
    }
}

/// While board and snake agree, the cells marked as part of the snake are
/// exactly the cells on which a segment lies, and no two segments lie on
/// the same cell.
pub proof fn lemma_marked_cells_are_body(m: GameModel)
    requires
        m.consistent(),
    ensures
        m.marked_cells() == m.body_cells(),
        m.no_overlap(),
{
    let n = m.body.len() as int;
    assert forall|c: Coord| m.marked_cells().contains(c) <==> m.body_cells().contains(c) by {
        if m.occupies(c) {
            let i = choose|i: int| seg_on(m.body, i, c);
            assert(m.covers(m.body[i].coord));
            if i >= 1 {
                assert(m.cells[m.body[i].coord] == mark_of(i, n));
            }
        }
    }
    assert(m.marked_cells() =~= m.body_cells());
}

/// A tick keeps board and snake in agreement, unless it moves the head onto
/// the cell of the tail: then the cell of the head is left marked as empty
/// until the head moves on. A tick that moves the head anywhere else even
/// restores the agreement.
pub proof fn lemma_tick_keeps_agreement(m: GameModel, respawn: Option<Coord>)
    requires
        m.wf(),
        !m.chases_tail(),
    ensures
        m.consistent() ==> m.step(respawn).consistent(),
        m.can_move() ==> m.step(respawn).consistent(),
{
    lemma_after_input_wf(m);
    let a = m.after_input();
    lemma_moved_wf(a, respawn);
    assert(a.body[a.body.len() - 1].coord == m.body[m.body.len() - 1].coord);
}

/// A tick that moves the head onto the cell of the tail leaves that cell,
/// now the cell of the head, marked as empty, and makes the segment that
/// was second to last the tail.
pub proof fn lemma_tail_chase(m: GameModel, respawn: Option<Coord>)
    requires
        m.wf(),
        m.chases_tail(),
    ensures
        m.body.len() >= 2,
        m.growing <= 0,
        m.step_result() == StateTransition::Continue,
        m.step(respawn).wf(),
        m.step(respawn).body[0].coord == m.tail_cell(),
        m.step(respawn).cells[m.tail_cell()] == ItemType::Nothing,
        m.growing == 0 ==> m.step(respawn).tail_cell() == m.body[m.body.len() - 2].coord,
        m.growing == 0 && m.body.len() >= 3 ==> m.step(respawn).cells[m.body[m.body.len()
            - 2].coord] == ItemType::SnakeTail,
{
    lemma_after_input_wf(m);
    let a = m.after_input();
    let n = m.body.len() as int;
    assert(a.body[n - 1].coord == m.body[n - 1].coord);
    lemma_moved_wf(a, respawn);
    lemma_next_head_admitted(a);
    assert(a.cells[a.ahead_cell()] == ItemType::SnakeTail);
    let seg = a.next_head();
    lemma_advanced_mid_tick(a, seg);
    let adv = a.advanced(seg);
    lemma_retracted_mid_tick(adv);
    assert(adv.body[n].coord == a.body[n - 1].coord);
    assert(adv.body[n - 1].coord == a.body[n - 2].coord);
    assert(a.body[n - 2].coord == m.body[n - 2].coord);
    if m.growing < 0 {
        lemma_retracted_mid_tick(adv.retracted());
    }
}

/// Asking for the reverse of the heading changes nothing: after the next
/// tick the snake still has the heading it had.
pub proof fn lemma_no_reversal(m: GameModel, input: InputType, respawn: Option<Coord>)
    requires
        m.wf(),
        input.direction() == Some(m.heading().opposite()),
    ensures
        m.buffer(input).accepted_heading() == m.heading(),
        m.buffer(input).step(respawn).heading() == m.heading(),
        m.buffer(input).step(respawn) == m.without_input().step(respawn),
{
    let b = m.buffer(input);
    lemma_after_input_wf(b);
    lemma_moved_wf(b.after_input(), respawn);
    let plain = m.without_input();
    assert(b.after_input() == plain.after_input());
}

/// Asking for the heading that the snake already has, once or again and
/// again, gives the same tick as asking for nothing: the snake moves
/// straight on, and keeps its heading. `Nothing` leaves the state as it is.
pub proof fn lemma_redundant_input(m: GameModel, input: InputType, respawn: Option<Coord>)
    requires
        m.wf(),
        input.direction() == Some(m.heading()) || input == InputType::Nothing,
    ensures
        input == InputType::Nothing ==> m.buffer(input) == m,
        m.buffer(input).buffer(input) == m.buffer(input),
        input.direction() is Some ==> m.buffer(input).step(respawn) == m.without_input().step(
            respawn,
        ),
        input.direction() is Some ==> m.buffer(input).step(respawn).heading() == m.heading(),
{
    if input.direction() is Some {
        let b = m.buffer(input);
        lemma_after_input_wf(b);
        lemma_moved_wf(b.after_input(), respawn);
        let plain = m.without_input();
        assert(b.after_input() == plain.after_input());
    }
}

/// A tick that eats food adds the growth of one item of food to the full
/// length of the snake. A tick that moves without eating leaves the full
/// length as it is: the snake gets one segment longer while it has growth
/// to spend, keeps its length when it has none, and gets one segment
/// shorter while it has a debt. A tick that cannot move changes neither.
pub proof fn lemma_growth(m: GameModel, respawn: Option<Coord>)
    requires
        m.wf(),
    ensures
        m.eats() ==> m.step(respawn).full_length() == m.full_length() + SNAKE_GROWTH_PER_FOOD,
        m.eats() ==> m.step(respawn).growing == spent(m.growing + SNAKE_GROWTH_PER_FOOD),
        m.can_move() && !m.eats() ==> m.step(respawn).full_length() == m.full_length(),
        m.can_move() && !m.eats() ==> m.step(respawn).growing == spent(m.growing),
        m.can_move() && !m.eats() ==> m.step(respawn).body.len() == m.body.len() + 1 - drawn_in(
            m.growing,
        ),
        !m.can_move() ==> m.step(respawn).body.len() == m.body.len() && m.step(respawn).growing
            == m.growing,
{
    lemma_after_input_wf(m);
    lemma_moved_wf(m.after_input(), respawn);
}

/// The snake moves as a snake does: after a tick that moves it, the head
/// lies on the cell it headed for and has the heading on which it went
/// there, and every other segment lies where the segment before it lay.
/// The tail is drawn in according to the growth that is pending once the
/// food of this tick, if any, is eaten.
pub proof fn lemma_segments_follow(m: GameModel, respawn: Option<Coord>)
    requires
        m.wf(),
        m.can_move(),
    ensures
        m.step(respawn).body[0].coord == m.target(),
        m.step(respawn).heading() == m.accepted_heading(),
        m.body[0].coord.is_step(m.accepted_heading(), m.target()),
        m.step(respawn).body.len() == m.body.len() + 1 - drawn_in(
            m.after_input().growth_to_settle(),
        ),
        forall|i: int|
            1 <= i < m.step(respawn).body.len() ==> (#[trigger] m.step(respawn).body[i]).coord
                == m.body[i - 1].coord,
{
    lemma_after_input_wf(m);
    let a = m.after_input();
    lemma_moved_wf(a, respawn);
    lemma_next_head_admitted(a);
    let s = m.step(respawn);
    assert forall|i: int| 1 <= i < s.body.len() implies (#[trigger] s.body[i]).coord == m.body[i
        - 1].coord by {
        assert(a.body[i - 1].coord == m.body[i - 1].coord);
    }
}

/// The cell offered for new food plays no part in a tick that eats
/// nothing.
pub proof fn lemma_respawn_unused(m: GameModel, respawn: Option<Coord>)
    requires
        !m.eats(),
    ensures
        m.step(respawn) == m.step(None),
{
}

/// State `i + 1` of `states` comes from state `i` by a tick that moves the
/// snake and eats nothing.
pub open spec fn moves_on(states: Seq<GameModel>, i: int) -> bool {
    &&& states[i].can_move()
    &&& !states[i].eats()
    &&& states[i + 1] == states[i].step(None)
}

/// The growth that the snake has to spend is spent one cell per tick: in a
/// run of ticks that move it and eat nothing, the snake is longer by `k`
/// after `k` ticks, but by no more than the growth it had at the start. So
/// the growth of one item of food, once eaten, shows as that many ticks in
/// which the tail stays where it is.
pub proof fn lemma_growth_is_spent(states: Seq<GameModel>, k: int)
    requires
        0 <= k < states.len(),
        states[0].wf(),
        states[0].growing >= 0,
        forall|i: int| 0 <= i < states.len() - 1 ==> #[trigger] moves_on(states, i),
    ensures
        states[k].wf(),
        states[k].body.len() == states[0].body.len() + min(k, states[0].growing),
        states[k].growing == states[0].growing - min(k, states[0].growing),
    decreases k,
{
    if k > 0 {
        lemma_growth_is_spent(states, k - 1);
        assert(moves_on(states, k - 1));
        lemma_growth(states[k - 1], None);
        lemma_step_wf(states[k - 1], None);
    }
}

/// Drawing in the tail puts no food on the board.
proof fn lemma_retracted_food(m: GameModel, c: Coord)
    requires
        m.retracted().cells[c] == ItemType::Food,
    ensures
        m.cells[c] == ItemType::Food,
{
}

/// Letting the tail follow puts no food on the board.
proof fn lemma_settled_food(m: GameModel, c: Coord)
    requires
        m.settled().cells[c] == ItemType::Food,
    ensures
        m.cells[c] == ItemType::Food,
{
    if m.growing == 0 {
        lemma_retracted_food(m, c);
    } else if m.growing < 0 {
        lemma_retracted_food(m.retracted(), c);
        lemma_retracted_food(m, c);
    }
}

/// Moving the head puts no food on the board, and leaves none on the cell
/// that the head enters.
proof fn lemma_advanced_food(m: GameModel, seg: CoordWithDirection, c: Coord)
    requires
        m.advanced(seg).cells[c] == ItemType::Food,
    ensures
        m.cells[c] == ItemType::Food,
        c != seg.coord,
{
}

/// One attempt to move makes no food but the one item that it drops when
/// it eats, and leaves none on the cell of food that it eats.
proof fn lemma_moved_food(m: GameModel, respawn: Option<Coord>, c: Coord)
    requires
        m.moved(respawn).cells[c] == ItemType::Food,
    ensures
        (m.cells[c] == ItemType::Food && !(m.eats_ahead() && c == m.ahead_cell())) || (
        m.eats_ahead() && respawn == Some(c) && m.can_hold_food(respawn)),
{
    if m.can_advance() {
        let seg = m.next_head();
        if m.eats_ahead() {
            let f = m.fed(respawn);
            lemma_settled_food(f.advanced(seg), c);
            lemma_advanced_food(f, seg, c);
        } else {
            lemma_settled_food(m.advanced(seg), c);
            lemma_advanced_food(m, seg, c);
        }
    }
}

/// A tick makes no food but the one item that it drops when it eats: food
/// that lies on a cell after the tick lay there before and was not eaten,
/// or was dropped there by the tick.
pub proof fn lemma_food_after_tick(m: GameModel, respawn: Option<Coord>, c: Coord)
    requires
        m.step(respawn).holds_food(c),
    ensures
        (m.holds_food(c) && !(m.eats() && c == m.target())) || (m.eats() && respawn == Some(c)
            && m.can_hold_food(respawn)),
{
    lemma_moved_food(m.after_input(), respawn, c);
}

/// If food lies on one cell at most before a tick, it lies on one cell at
/// most after it: the food that is dropped takes the place of the food that
/// is eaten.
pub proof fn lemma_at_most_one_food(m: GameModel, respawn: Option<Coord>)
    requires
        m.wf(),
        m.at_most_one_food(),
    ensures
        m.step(respawn).at_most_one_food(),
{
    let s = m.step(respawn);
    lemma_after_input_wf(m);
    if m.eats() {
        lemma_next_head_admitted(m.after_input());
        assert(m.holds_food(m.target()));
    }
    assert forall|a: Coord, b: Coord|
        #![trigger s.holds_food(a), s.holds_food(b)]
        s.holds_food(a) && s.holds_food(b) implies a == b by {
        lemma_food_after_tick(m, respawn, a);
        lemma_food_after_tick(m, respawn, b);
        if m.holds_food(a) && m.holds_food(b) {
        } else if m.holds_food(a) {
            assert(m.holds_food(m.target()));
        } else if m.holds_food(b) {
            assert(m.holds_food(m.target()));
        }
    }
}

/// Food dropped on a board without food is the only food on it.
pub proof fn lemma_first_food(m: GameModel, respawn: Option<Coord>)
    requires
        m.no_food(),
    ensures
        m.at_most_one_food(),
        m.with_food(respawn).at_most_one_food(),
{
    let f = m.with_food(respawn);
    assert forall|a: Coord, b: Coord|
        #![trigger f.holds_food(a), f.holds_food(b)]
        f.holds_food(a) && f.holds_food(b) implies a == b by {
        assert(m.cells[a] != ItemType::Food);
        assert(m.cells[b] != ItemType::Food);
    }
    assert forall|a: Coord, b: Coord|
        #![trigger m.holds_food(a), m.holds_food(b)]
        m.holds_food(a) && m.holds_food(b) implies a == b by {
        assert(m.cells[a] != ItemType::Food);
    }
}

} // verus!
