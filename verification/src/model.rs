//! The game as a mathematical state machine: what a state is, which states
//! are well formed, and what one tick makes of a state.

use crate::coord::Coord;
use crate::direction::Direction;
use crate::grid::{on_board, on_board_at, ItemType};
use crate::inputtype::InputType;
use crate::pair::Pair;
use crate::snake::{linked, popped_tail, pushed_head, turned, CoordWithDirection};
use vstd::prelude::*;

verus! {

/// Number of segments of the snake at the start of a game.
pub const INITIAL_SNAKE_LENGTH: i32 = 7;

/// Number of cells by which one item of food lets the snake grow.
pub const SNAKE_GROWTH_PER_FOOD: i32 = 3;

/// Number of random cells tried when new food is dropped.
pub const FOOD_ATTEMPTS: u32 = 100;

/// The largest number of cells of a board. It keeps every count of cells
/// and every pending growth well inside the range of `i32`.
pub const MAX_CELLS: u64 = 1_000_000_000;

/// What a step of the game tells the loop that drives it.
#[derive(Debug, PartialEq, Eq, Copy, Clone, Structural)]
pub enum StateTransition {
    Continue,
    Stop,
}

/// A state of the game.
pub struct GameModel {
    /// Number of columns of the board.
    pub width: int,
    /// Number of rows of the board.
    pub height: int,
    /// What each cell of the board holds.
    pub cells: Map<Coord, ItemType>,
    /// The segments of the snake, head first.
    pub body: Seq<CoordWithDirection>,
    /// The number of cells the snake still has to grow; if negative, the
    /// number of extra segments it still has to drop.
    pub growing: int,
    /// The direction asked for since the last tick, if any.
    pub pending: Option<Direction>,
}

/// Segment `i` of `body` exists and lies on cell `c`.
pub open spec fn seg_on(body: Seq<CoordWithDirection>, i: int, c: Coord) -> bool {
    0 <= i < body.len() && body[i].coord == c
}

/// The mark of segment `i` in a snake of `len` segments: the first is the
/// head, the last of two or more is the tail.
pub open spec fn mark_of(i: int, len: int) -> ItemType {
    if i == 0 {
        ItemType::SnakeHead
    } else if i == len - 1 {
        ItemType::SnakeTail
    } else {
        ItemType::SnakeBit
    }
}

impl GameModel {
    /// Whether `c` is a cell of the board.
    pub open spec fn covers(self, c: Coord) -> bool {
        on_board(self.width, self.height, c)
    }

    /// Whether a segment of the snake lies on `c`.
    pub open spec fn occupies(self, c: Coord) -> bool {
        exists|i: int| #[trigger] seg_on(self.body, i, c)
    }

    /// The heading of the snake: that of its head.
    pub open spec fn heading(self) -> Direction {
        self.body[0].dir_next
    }

    /// The cell of the tail.
    pub open spec fn tail_cell(self) -> Coord {
        self.body.last().coord
    }

    // ---------------------------------------------------------------
    // Well-formedness
    // ---------------------------------------------------------------
    /// The board has at least one cell and no more than `MAX_CELLS`, and
    /// `cells` says what each of its cells holds.
    pub open spec fn board_ok(self) -> bool {
        &&& 1 <= self.width
        &&& 1 <= self.height
        &&& self.width * self.height <= MAX_CELLS
        &&& forall|c: Coord| #[trigger] self.cells.dom().contains(c) <==> self.covers(c)
    }

    /// The segments form a snake that lies on the board.
    pub open spec fn on_the_board(self) -> bool {
        &&& linked(self.body)
        &&& forall|i: int| 0 <= i < self.body.len() ==> self.covers(#[trigger] self.body[i].coord)
    }

    /// No two segments share a cell.
    pub open spec fn no_overlap(self) -> bool {
        forall|i: int, j: int|
            0 <= i < j < self.body.len() ==> (#[trigger] self.body[i]).coord != (
            #[trigger] self.body[j]).coord
    }

    /// The pending growth is at most twice the length, and a debt leaves at
    /// least one segment. The first holds because food adds growth only in
    /// a tick that also makes the snake one segment longer; it keeps the
    /// growth within the range of `i32`.
    pub open spec fn growth_ok(self) -> bool {
        &&& self.growing <= 2 * self.body.len()
        &&& self.body.len() + self.growing >= 1
    }

    /// Every segment behind the head is marked on the board by its place in
    /// the snake.
    pub open spec fn trail_marked(self) -> bool {
        forall|i: int|
            1 <= i < self.body.len() ==> self.cells[(#[trigger] self.body[i]).coord] == mark_of(
                i,
                self.body.len() as int,
            )
    }

    /// Every cell that is marked as part of the snake holds a segment.
    pub open spec fn marks_owned(self) -> bool {
        forall|c: Coord|
            self.covers(c) && (#[trigger] self.cells[c]).is_snake() ==> self.occupies(c)
    }

    /// A state that the game can be in between two ticks. The cell of the
    /// head is marked as the head, or, right after the head has moved onto
    /// the cell that the tail left in the same tick, as empty.
    pub open spec fn wf(self) -> bool {
        &&& self.board_ok()
        &&& self.on_the_board()
        &&& self.no_overlap()
        &&& self.growth_ok()
        &&& self.trail_marked()
        &&& self.marks_owned()
        &&& (self.cells[self.body[0].coord] == ItemType::SnakeHead || self.cells[self.body[0].coord]
            == ItemType::Nothing)
    }

    /// A well-formed state in which board and snake agree on every cell:
    /// the cell of the head is marked as the head too.
    pub open spec fn consistent(self) -> bool {
        &&& self.wf()
        &&& self.cells[self.body[0].coord] == ItemType::SnakeHead
    }

    // ---------------------------------------------------------------
    // Input
    // ---------------------------------------------------------------
    /// The state after `input` was handed in between two ticks. A direction
    /// replaces whatever was pending; `Nothing` and `Quit` change nothing.
    pub open spec fn buffer(self, input: InputType) -> GameModel {
        match input.direction() {
            Some(d) => GameModel { pending: Some(d), ..self },
            None => self,
        }
    }

    /// What handing in `input` tells the driving loop.
    pub open spec fn input_result(input: InputType) -> StateTransition {
        if input == InputType::Quit {
            StateTransition::Stop
        } else {
            StateTransition::Continue
        }
    }

    /// The heading that the snake takes when it is asked for `direction`:
    /// that direction, unless it is the reverse of the heading.
    pub open spec fn heading_for(self, direction: Direction) -> Direction {
        if direction == self.heading().opposite() {
            self.heading()
        } else {
            direction
        }
    }

    /// The heading on which the next tick moves the head: the one for the
    /// pending direction, or the heading as it is if nothing is pending.
    pub open spec fn accepted_heading(self) -> Direction {
        match self.pending {
            Some(d) => self.heading_for(d),
            None => self.heading(),
        }
    }

    /// The state with the head turned to `heading`.
    pub open spec fn with_heading(self, heading: Direction) -> GameModel {
        GameModel { body: turned(self.body, heading), ..self }
    }

    /// The state with nothing pending.
    pub open spec fn without_input(self) -> GameModel {
        GameModel { pending: None, ..self }
    }

    /// The state once the pending input has been consumed.
    pub open spec fn after_input(self) -> GameModel {
        self.with_heading(self.accepted_heading()).without_input()
    }

    // ---------------------------------------------------------------
    // Movement, for a state whose pending input has been consumed
    // ---------------------------------------------------------------
    /// The point one step ahead of the head.
    pub open spec fn ahead(self) -> (int, int) {
        self.body[0].coord.step(self.heading())
    }

    /// Whether the point ahead of the head lies on the board.
    pub open spec fn ahead_on_board(self) -> bool {
        on_board_at(self.width, self.height, self.ahead().0, self.ahead().1)
    }

    /// The cell ahead of the head.
    pub open spec fn ahead_cell(self) -> Coord {
        Pair { x: self.ahead().0 as i32, y: self.ahead().1 as i32 }
    }

    /// Whether the head may enter a cell that holds `item`: an empty cell,
    /// food, or the tail when the tail leaves in the same tick.
    pub open spec fn may_enter(self, item: ItemType) -> bool {
        match item {
            ItemType::Nothing => true,
            ItemType::Food => true,
            ItemType::SnakeTail => self.growing <= 0,
            _ => false,
        }
    }

    /// Whether the head can move one step on its heading.
    pub open spec fn can_advance(self) -> bool {
        self.ahead_on_board() && self.may_enter(self.cells[self.ahead_cell()])
    }

    /// The segment that the head becomes by moving one step.
    pub open spec fn next_head(self) -> CoordWithDirection {
        CoordWithDirection {
            dir_next: self.heading(),
            coord: self.ahead_cell(),
            dir_prev: Some(self.heading().opposite()),
        }
    }

    /// Whether `respawn` names a cell on which new food can be dropped.
    pub open spec fn can_hold_food(self, respawn: Option<Coord>) -> bool {
        respawn matches Some(c) && self.covers(c) && self.cells[c] == ItemType::Nothing
    }

    /// Whether `c` is a cell of the board on which a search for an empty
    /// cell finds nothing: the cell holds something.
    pub open spec fn taken(self, c: Coord) -> bool {
        self.covers(c) && self.cells[c] != ItemType::Nothing
    }

    /// Whether `r` is what a search for an empty cell comes to that tries
    /// the cells `tried` one after the other, `FOOD_ATTEMPTS` of them at
    /// most. The search ends with the first cell of the board that is
    /// empty, and that cell is its result. It ends without a cell when it
    /// has tried `FOOD_ATTEMPTS` cells of the board and found something on
    /// each.
    pub open spec fn searched(self, tried: Seq<Coord>, r: Option<Coord>) -> bool {
        &&& tried.len() <= FOOD_ATTEMPTS
        &&& match r {
            Some(c) => {
                &&& tried.len() >= 1
                &&& tried.last() == c
                &&& self.can_hold_food(r)
                &&& forall|i: int| 0 <= i < tried.len() - 1 ==> self.taken(#[trigger] tried[i])
            },
            None => {
                &&& tried.len() == FOOD_ATTEMPTS
                &&& forall|i: int| 0 <= i < tried.len() ==> self.taken(#[trigger] tried[i])
            },
        }
    }

    /// The state with food on cell `respawn`, if that is an empty cell of
    /// the board; else the state itself.
    pub open spec fn with_food(self, respawn: Option<Coord>) -> GameModel {
        if self.can_hold_food(respawn) {
            GameModel { cells: self.cells.insert(respawn.unwrap(), ItemType::Food), ..self }
        } else {
            self
        }
    }

    /// The state after the food ahead was eaten: the snake has more to
    /// grow, and new food lies on `respawn` if that is an empty cell.
    pub open spec fn fed(self, respawn: Option<Coord>) -> GameModel {
        GameModel { growing: self.growing + SNAKE_GROWTH_PER_FOOD, ..self }.with_food(respawn)
    }

    /// The state after `seg` became the head. The cell that the head leaves
    /// is marked as a part of the body, or as the tail if the snake had one
    /// segment only.
    pub open spec fn advanced(self, seg: CoordWithDirection) -> GameModel {
        let left = if self.body.len() == 1 {
            ItemType::SnakeTail
        } else {
            ItemType::SnakeBit
        };
        GameModel {
            cells: self.cells.insert(self.body[0].coord, left).insert(
                seg.coord,
                ItemType::SnakeHead,
            ),
            body: pushed_head(self.body, seg),
            ..self
        }
    }

    /// The state after the tail was drawn in by one segment: its cell is
    /// empty, and the segment before it is marked as the tail, unless that
    /// segment is the head.
    pub open spec fn retracted(self) -> GameModel {
        let rest = popped_tail(self.body);
        let cleared = self.cells.insert(self.body.last().coord, ItemType::Nothing);
        GameModel {
            cells: if rest.len() >= 2 {
                cleared.insert(rest.last().coord, ItemType::SnakeTail)
            } else {
                cleared
            },
            body: rest,
            ..self
        }
    }

    /// The state after the tail followed a move of the head. With growth
    /// pending the tail stays and one unit of growth is spent. With none
    /// the tail is drawn in by one segment. With a debt it is drawn in by
    /// two, and one unit of the debt is paid.
    pub open spec fn settled(self) -> GameModel {
        if self.growing > 0 {
            GameModel { growing: self.growing - 1, ..self }
        } else if self.growing == 0 {
            self.retracted()
        } else {
            let twice = self.retracted().retracted();
            GameModel { growing: twice.growing + 1, ..twice }
        }
    }

    /// Whether moving the head eats food.
    pub open spec fn eats_ahead(self) -> bool {
        self.can_advance() && self.cells[self.ahead_cell()] == ItemType::Food
    }

    /// The growth that is pending when the tail follows the head: what was
    /// pending before, and the growth of one item of food if the step eats.
    pub open spec fn growth_to_settle(self) -> int {
        if self.eats_ahead() {
            self.growing + SNAKE_GROWTH_PER_FOOD
        } else {
            self.growing
        }
    }

    /// The state after the snake tried to move one step: unchanged if it
    /// cannot, else with the head one step on and the tail settled. If the
    /// step eats food, new food is dropped on `respawn` first.
    pub open spec fn moved(self, respawn: Option<Coord>) -> GameModel {
        if !self.can_advance() {
            self
        } else if self.eats_ahead() {
            self.fed(respawn).advanced(self.next_head()).settled()
        } else {
            self.advanced(self.next_head()).settled()
        }
    }

    // ---------------------------------------------------------------
    // One tick
    // ---------------------------------------------------------------
    /// Whether the next tick moves the snake.
    pub open spec fn can_move(self) -> bool {
        self.after_input().can_advance()
    }

    /// Whether the next tick eats food.
    pub open spec fn eats(self) -> bool {
        self.after_input().eats_ahead()
    }

    /// The cell that the head enters on the next tick, if it moves.
    pub open spec fn target(self) -> Coord {
        self.after_input().ahead_cell()
    }

    /// Whether the next tick moves the head onto the cell of the tail.
    pub open spec fn chases_tail(self) -> bool {
        self.can_move() && self.target() == self.tail_cell()
    }

    /// What an attempt to move tells the driving loop.
    pub open spec fn advance_result(self) -> StateTransition {
        if self.can_advance() {
            StateTransition::Continue
        } else {
            StateTransition::Stop
        }
    }

    /// What the next tick tells the driving loop.
    pub open spec fn step_result(self) -> StateTransition {
        self.after_input().advance_result()
    }

    /// The state after one tick. `respawn` is the cell on which new food is
    /// dropped if the tick eats food.
    pub open spec fn step(self, respawn: Option<Coord>) -> GameModel {
        self.after_input().moved(respawn)
    }
}

} // verus!
