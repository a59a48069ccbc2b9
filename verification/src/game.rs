//! The game state and its update engine: buffered input, movement,
//! collisions, growth and food.

use crate::coord::Coord;
use crate::counting::lemma_length_bounded;
use crate::direction::Direction;
use crate::grid::{
    coordinate_range, lemma_coordinate_range_spans, make_coordinate_range, on_board, on_board_at,
    Grid,
};
use crate::invariants::{
    lemma_advanced_mid_tick, lemma_after_input_wf, lemma_board_sides, lemma_moved_wf,
    lemma_next_head_admitted, lemma_retracted_mid_tick, lemma_with_food_keeps_trail,
    lemma_with_food_wf,
};
use crate::laws::{lemma_at_most_one_food, lemma_first_food};
use crate::layout::{
    beside, board_fits, board_size_ok, growth_fits, initial_cells, layout_heading,
    lemma_extend_layout, lemma_initial_cells_valid, lemma_laid_out_consistent,
    lemma_valid_prefix, valid_layout,
};
use crate::model::{
    GameModel, FOOD_ATTEMPTS, INITIAL_SNAKE_LENGTH, MAX_CELLS, SNAKE_GROWTH_PER_FOOD,
};
use crate::snake::turned;
use rand::Rng;
use vstd::prelude::*;

pub use crate::grid::{GridType, ItemType};
pub use crate::inputtype::InputType;
pub use crate::model::StateTransition;
pub use crate::snake::{CoordWithDirection, SnakeType};

verus! {

/// A game in progress: the board, the snake, and the one direction that
/// may be waiting for the next tick.
pub struct GameState {
    world: Grid,
    snake: SnakeType,
    pending_input: Option<Direction>,
}

impl View for GameState {
    type V = GameModel;

    closed spec fn view(&self) -> GameModel {
        GameModel {
            width: self.world.spec_width(),
            height: self.world.spec_height(),
            cells: self.world@,
            body: self.snake@,
            growing: self.snake.spec_growing(),
            pending: self.pending_input,
        }
    }
}

/// Calls `rand::Rng::gen_range` on `rand::thread_rng()` with the range
/// `lo..=hi`. Assumed, not proved: the number drawn lies between `lo` and
/// `hi`, both included. The call panics on an empty range, so `lo` may not
/// exceed `hi`. Nothing more is said of the number: two calls may differ.
#[verifier::external_body]
fn random_in_range(lo: i32, hi: i32) -> (r: i32)
    requires
        lo <= hi,
    ensures
        lo <= r <= hi,
{
    rand::thread_rng().gen_range(lo..=hi)
}

impl GameState {
    /// The state is one that the game can be in between two ticks.
    pub closed spec fn wf(&self) -> bool {
        &&& self.world.wf()
        &&& self@.wf()
    }

    /// The view of a well-formed state is a well-formed state of the game.
    pub proof fn lemma_wf_view(&self)
        requires
            self.wf(),
        ensures
            self@.wf(),
    {
    }

    // ---------------------------------------------------------------
    // Setting up a game
    // ---------------------------------------------------------------
    /// Whether a game can start on a board of the given size.
    pub fn fits(width: u32, height: u32) -> (r: bool)
        ensures
            r == board_fits(width as int, height as int),
    {
        GameState::size_ok(width, height) && height as i64 >= INITIAL_SNAKE_LENGTH as i64 + 1
    }

    /// Whether a board of the given size has a cell, and no more cells than
    /// `MAX_CELLS`.
    fn size_ok(width: u32, height: u32) -> (r: bool)
        ensures
            r == board_size_ok(width as int, height as int),
    {
        assert(width * height == (width as u64) * (height as u64)) by (nonlinear_arith);
        assert((width as u64) * (height as u64) <= 0xFFFF_FFFF * 0xFFFF_FFFF) by (nonlinear_arith)
            requires
                width <= 0xFFFF_FFFF,
                height <= 0xFFFF_FFFF,
        ;
        width >= 1 && height >= 1 && (width as u64) * (height as u64) <= MAX_CELLS
    }

    /// Whether `at` is a cell of a board of the given size, and the size is
    /// a valid one.
    fn holds(width: u32, height: u32, at: &Coord) -> (r: bool)
        ensures
            r == valid_layout(width as int, height as int, seq![*at]),
    {
        assert(seq![*at][0] == *at);
        if !GameState::size_ok(width, height) {
            return false;
        }
        let xrange = make_coordinate_range(width);
        let yrange = make_coordinate_range(height);
        xrange.0 <= at.x && at.x <= xrange.1 && yrange.0 <= at.y && at.y <= yrange.1
    }

    /// A board of the given size with a snake of one segment on `at`.
    fn hatch(width: u32, height: u32, at: Coord, heading: Direction) -> (g: GameState)
        requires
            valid_layout(width as int, height as int, seq![at]),
        ensures
            g.world.wf(),
            g@ == GameModel::laid_out(width as int, height as int, seq![at], heading, 0),
    {
        let mut world = Grid::new(width, height);
        let ghost empty = world@;
        assert(seq![at][0] == at);
        world.set(&at, ItemType::SnakeHead);
        let state = GameState {
            world: world,
            snake: SnakeType::new(at, heading),
            pending_input: None,
        };
        proof {
            let cells = seq![at];
            let m = GameModel::laid_out(width as int, height as int, cells, heading, 0);
            assert(state@.body =~= m.body);
            assert forall|c: Coord|
                on_board(width as int, height as int, c) implies #[trigger] state@.cells[c]
                == m.cells[c] by {
                assert(empty.dom().contains(c));
                assert(empty[c] == ItemType::Nothing);
                if cells.contains(c) {
                    assert(cells.index_of(c) == 0);
                }
            }
            assert(state@.cells =~= m.cells);
        }
        state
    }

    /// Gives the snake a new tail on `c` if that is an empty cell of the
    /// board next to the tail, and says whether it did.
    fn extend_tail(&mut self, c: Coord) -> (r: bool)
        requires
            old(self).world.wf(),
            old(self)@.body.len() >= 1,
            old(self)@.covers(old(self)@.tail_cell()),
        ensures
            r == old(self)@.can_extend_tail(c),
            r ==> final(self)@ == old(self)@.with_tail(c),
            !r ==> final(self)@ == old(self)@,
            final(self).world.wf(),
    {
        if !self.world.in_range(&c) {
            return false;
        }
        if self.world.get(&c) != ItemType::Nothing {
            return false;
        }
        let head = self.snake.head();
        if c.x == head.coord.x && c.y == head.coord.y {
            return false;
        }
        let old_tail = self.snake.tail();
        let segments = self.snake.len();
        if !self.snake.push_tail(c) {
            return false;
        }
        if segments >= 2 {
            self.world.set(&old_tail.coord, ItemType::SnakeBit);
        }
        self.world.set(&c, ItemType::SnakeTail);
        true
    }

    /// Lays the snake out for the start of a game, downwards from its
    /// head.
    fn initialize_snake(&mut self)
        requires
            board_fits(old(self)@.width, old(self)@.height),
            old(self).world.wf(),
            old(self)@ == GameModel::laid_out(
                old(self)@.width,
                old(self)@.height,
                initial_cells(old(self)@.height).take(1),
                Direction::Up,
                0,
            ),
        ensures
            final(self).world.wf(),
            final(self)@ == GameModel::laid_out(
                old(self)@.width,
                old(self)@.height,
                initial_cells(old(self)@.height),
                Direction::Up,
                0,
            ),
    {
        let ghost width = self@.width;
        let ghost height = self@.height;
        let ghost cells = initial_cells(height);
        proof {
            lemma_initial_cells_valid(width, height);
            lemma_coordinate_range_spans(height);
            assert(height <= MAX_CELLS) by (nonlinear_arith)
                requires
                    1 <= width,
                    1 <= height,
                    width * height <= MAX_CELLS,
            ;
        }
        let bottom = self.world.get_yrange().1;
        let mut k: i32 = 1;
        while k < INITIAL_SNAKE_LENGTH
            invariant
                1 <= k <= INITIAL_SNAKE_LENGTH,
                board_fits(width, height),
                cells == initial_cells(height),
                bottom == coordinate_range(height).1,
                0 <= bottom <= MAX_CELLS,
                self.world.wf(),
                self@ == GameModel::laid_out(width, height, cells.take(k as int), Direction::Up, 0),
                forall|j: int|
                    1 <= j <= INITIAL_SNAKE_LENGTH ==> valid_layout(
                        width,
                        height,
                        #[trigger] cells.take(j),
                    ),
            decreases INITIAL_SNAKE_LENGTH - k,
        {
            let at = Coord { x: 0, y: bottom - INITIAL_SNAKE_LENGTH + k };
            proof {
                let part = cells.take(k as int);
                assert(valid_layout(width, height, part));
                assert(valid_layout(width, height, cells.take(k + 1)));
                assert(part.push(at) =~= cells.take(k + 1));
                lemma_laid_out_consistent(width, height, part, Direction::Up, 0);
                lemma_extend_layout(width, height, part, Direction::Up, 0, at);
                assert(self@.covers(self@.body[k - 1].coord));
            }
            let extended = self.extend_tail(at);
            assert(extended);
            k = k + 1;
        }
        assert(cells.take(INITIAL_SNAKE_LENGTH as int) =~= cells);
    }

    /// A new game on a board of the given size. The snake has
    /// `INITIAL_SNAKE_LENGTH` segments and stands upright in the column
    /// `x = 0`, its tail one row above the bottom row; it heads up and has
    /// nothing to grow. One item of food lies on an empty cell found by
    /// `FOOD_ATTEMPTS` random tries, or nowhere if none of them hit one.
    pub fn new(width: u32, height: u32) -> (g: Self)
        requires
            board_fits(width as int, height as int),
        ensures
            g.wf(),
            g@.consistent(),
            g@.width == width,
            g@.height == height,
            g@.body.len() == INITIAL_SNAKE_LENGTH,
            g@.heading() == Direction::Up,
            g@.growing == 0,
            g@.pending is None,
            g@.at_most_one_food(),
            exists|food: Option<Coord>|
                (food is None || GameModel::laid_out(
                    width as int,
                    height as int,
                    initial_cells(height as int),
                    Direction::Up,
                    0,
                ).can_hold_food(food)) && g@ == #[trigger] GameModel::laid_out(
                    width as int,
                    height as int,
                    initial_cells(height as int),
                    Direction::Up,
                    0,
                ).with_food(food),
    {
        proof {
            lemma_initial_cells_valid(width as int, height as int);
            lemma_coordinate_range_spans(height as int);
            assert(height <= MAX_CELLS) by (nonlinear_arith)
                requires
                    1 <= width,
                    1 <= height,
                    width * height <= MAX_CELLS,
            ;
        }
        let yrange = make_coordinate_range(height);
        let top = Coord { x: 0, y: yrange.1 - INITIAL_SNAKE_LENGTH };
        let ghost cells = initial_cells(height as int);
        proof {
            assert(cells.take(1) =~= seq![top]);
            assert(valid_layout(width as int, height as int, cells.take(1)));
        }
        let mut state = GameState::hatch(width, height, top, Direction::Up);
        state.initialize_snake();
        proof {
            lemma_laid_out_consistent(width as int, height as int, cells, Direction::Up, 0);
        }
        let food = state.drop_new_food();
        proof {
            lemma_first_food(
                GameModel::laid_out(width as int, height as int, cells, Direction::Up, 0),
                food,
            );
        }
        state
    }

    /// A game whose snake lies along `cells`, head first, on an otherwise
    /// empty board, with `growing` cells to grow. The snake heads away from
    /// its second segment, or up if it has one segment only. `None` if the
    /// board is of no valid size, if the cells are no valid run of cells on
    /// it, or if the growth does not fit the length.
    pub fn with_snake(width: u32, height: u32, cells: &Vec<Coord>, growing: i32) -> (r: Option<
        GameState,
    >)
        ensures
            r is Some <==> valid_layout(width as int, height as int, cells@) && growth_fits(
                cells@.len() as int,
                growing as int,
            ),
            r matches Some(g) ==> g.wf() && g@.consistent() && g@.no_food() && g@
                == GameModel::laid_out(
                width as int,
                height as int,
                cells@,
                layout_heading(cells@),
                growing as int,
            ),
    {
        let ghost w = width as int;
        let ghost h = height as int;
        let n = cells.len();
        if n == 0 {
            return None;
        }
        let heading = if n >= 2 {
            match cells[1].direction_to(&cells[0]) {
                Some(d) => d,
                None => {
                    assert(!beside(cells@, 0));
                    return None;
                },
            }
        } else {
            Direction::Up
        };
        assert(heading == layout_heading(cells@));
        assert(cells@.take(1) =~= seq![cells@[0]]);
        if !GameState::holds(width, height, &cells[0]) {
            proof {
                if valid_layout(w, h, cells@) {
                    lemma_valid_prefix(w, h, cells@, 1);
                }
            }
            return None;
        }
        let mut state = GameState::hatch(width, height, cells[0], heading);
        let mut k: usize = 1;
        while k < n
            invariant
                1 <= k <= n,
                n == cells@.len(),
                w == width as int,
                h == height as int,
                state.world.wf(),
                valid_layout(w, h, cells@.take(k as int)),
                state@ == GameModel::laid_out(w, h, cells@.take(k as int), heading, 0),
            decreases n - k,
        {
            let at = cells[k];
            proof {
                let part = cells@.take(k as int);
                assert(part.push(at) =~= cells@.take(k + 1));
                lemma_laid_out_consistent(w, h, part, heading, 0);
                lemma_extend_layout(w, h, part, heading, 0, at);
                assert(state@.covers(state@.body[k - 1].coord));
                if valid_layout(w, h, cells@) {
                    lemma_valid_prefix(w, h, cells@, k + 1);
                }
            }
            if !state.extend_tail(at) {
                return None;
            }
            k = k + 1;
        }
        proof {
            assert(cells@.take(n as int) =~= cells@);
            lemma_laid_out_consistent(w, h, cells@, heading, 0);
            lemma_length_bounded(state@);
        }
        let len = n as i64;
        let wanted = growing as i64;
        if wanted > 2 * len || len + wanted < 1 {
            return None;
        }
        state.snake.set_growing(growing);
        proof {
            lemma_laid_out_consistent(w, h, cells@, heading, growing as int);
        }
        Some(state)
    }

    // ---------------------------------------------------------------
    // Reading the state
    // ---------------------------------------------------------------
    /// The cells of the board, row by row from the top. The cell with game
    /// coordinates `c` stands in row `c.y - ymin` at column `c.x - xmin`.
    pub fn get_world(&self) -> (r: &GridType)
        requires
            self.wf(),
        ensures
            r@.len() == self@.height,
            forall|i: int| 0 <= i < self@.height ==> (#[trigger] r@[i])@.len() == self@.width,
            forall|c: Coord|
                self@.covers(c) ==> r@[c.y - coordinate_range(self@.height).0]@[c.x
                    - coordinate_range(self@.width).0] == #[trigger] self@.cells[c],
    {
        self.world.rows()
    }

    /// The snake.
    pub fn get_snake(&self) -> (r: &SnakeType)
        ensures
            r@ == self@.body,
            r.spec_growing() == self@.growing,
    {
        &self.snake
    }

    /// Number of columns of the board.
    pub fn get_width(&self) -> (r: u32)
        ensures
            r == self@.width,
    {
        self.world.get_width()
    }

    /// Number of rows of the board.
    pub fn get_height(&self) -> (r: u32)
        ensures
            r == self@.height,
    {
        self.world.get_height()
    }

    /// Whether `at` is a cell of the board.
    pub fn in_range(&self, at: &Coord) -> (r: bool)
        requires
            self.wf(),
        ensures
            r == self@.covers(*at),
    {
        self.world.in_range(at)
    }

    /// What the cell `at` of the board holds.
    pub fn get(&self, at: &Coord) -> (r: ItemType)
        requires
            self.wf(),
            self@.covers(*at),
        ensures
            r == self@.cells[*at],
    {
        self.world.get(at)
    }

    /// The place of `at` counted from the top left cell of the board: `at`
    /// minus the least coordinate of each axis.
    pub fn game_to_grid(&self, at: &Coord) -> (r: Coord)
        requires
            self.wf(),
            i32::MIN <= at.x - coordinate_range(self@.width).0 <= i32::MAX,
            i32::MIN <= at.y - coordinate_range(self@.height).0 <= i32::MAX,
        ensures
            r.x == at.x - coordinate_range(self@.width).0,
            r.y == at.y - coordinate_range(self@.height).0,
    {
        let xrange = self.world.get_xrange();
        let yrange = self.world.get_yrange();
        Coord { x: at.x - xrange.0, y: at.y - yrange.0 }
    }

    /// Column and row of the cell `at` in the rows of `get_world`.
    pub fn game_to_grid_tuple(&self, at: &(i32, i32)) -> (r: (usize, usize))
        requires
            self.wf(),
            on_board_at(self@.width, self@.height, at.0 as int, at.1 as int),
        ensures
            r.0 == at.0 - coordinate_range(self@.width).0,
            r.1 == at.1 - coordinate_range(self@.height).0,
            r.0 < self@.width,
            r.1 < self@.height,
    {
        self.world.to_grid_index(&Coord { x: at.0, y: at.1 })
    }

    // ---------------------------------------------------------------
    // Input
    // ---------------------------------------------------------------
    /// Takes one poll of the input source. `Quit` stops the game at once.
    /// A direction is kept for the next tick, in place of any direction
    /// kept before. `Nothing` changes nothing.
    pub fn handle_input(&mut self, input: InputType) -> (r: StateTransition)
        ensures
            final(self)@ == old(self)@.buffer(input),
            r == GameModel::input_result(input),
            old(self).wf() ==> final(self).wf(),
    {
        match input {
            InputType::Quit => StateTransition::Stop,
            InputType::Nothing => StateTransition::Continue,
            _ => {
                self.pending_input = input.get_direction();
                StateTransition::Continue
            },
        }
    }

    /// Turns the head to `direction`, unless that is the reverse of its
    /// heading.
    fn handle_direction(&mut self, direction: Direction) -> (r: StateTransition)
        requires
            old(self).wf(),
        ensures
            final(self)@ == old(self)@.with_heading(old(self)@.heading_for(direction)),
            final(self).world.wf(),
            r == StateTransition::Continue,
    {
        let head = self.snake.head();
        if head.dir_next != direction.get_disallowed() {
            self.snake.set_heading(direction);
        } else {
            assert(turned(old(self)@.body, old(self)@.heading()) =~= old(self)@.body);
        }
        StateTransition::Continue
    }

    /// Consumes the pending input.
    fn process_input(&mut self) -> (r: StateTransition)
        requires
            old(self).wf(),
        ensures
            final(self)@ == old(self)@.after_input(),
            final(self).wf(),
            r == StateTransition::Continue,
    {
        proof {
            lemma_after_input_wf(self@);
        }
        match self.pending_input {
            Some(direction) => {
                self.pending_input = None;
                self.handle_direction(direction)
            },
            None => {
                assert(turned(self@.body, self@.heading()) =~= self@.body);
                StateTransition::Continue
            },
        }
    }

    // ---------------------------------------------------------------
    // Movement
    // ---------------------------------------------------------------
    /// The segment that `a` becomes by moving one step on its heading, or
    /// `None` if that step leaves the board.
    fn try_create_target(&self, a: &CoordWithDirection) -> (r: Option<CoordWithDirection>)
        requires
            self.wf(),
            self@.covers(a.coord),
        ensures
            r is Some <==> on_board_at(
                self@.width,
                self@.height,
                a.coord.step(a.dir_next).0,
                a.coord.step(a.dir_next).1,
            ),
            r matches Some(t) ==> a.coord.is_step(a.dir_next, t.coord),
            r matches Some(t) ==> t.dir_next == a.dir_next,
            r matches Some(t) ==> t.dir_prev == Some(a.dir_next.opposite()),
    {
        proof {
            lemma_board_sides(self@);
        }
        let target = a.coord.calculate_neighbor(a.dir_next);
        if self.world.in_range(&target) {
            return Some(
                CoordWithDirection {
                    dir_next: a.dir_next,
                    coord: target,
                    dir_prev: Some(a.dir_next.get_opposite()),
                },
            );
        }
        None
    }

    /// Whether the head may enter the cell of `target`.
    fn snake_can_move(&self, target: &CoordWithDirection) -> (r: bool)
        requires
            self.wf(),
            self@.covers(target.coord),
        ensures
            r == self@.may_enter(self@.cells[target.coord]),
    {
        match self.world.get(&target.coord) {
            ItemType::Nothing => true,
            ItemType::Food => true,
            // the tail leaves its cell in this tick unless the snake grows
            ItemType::SnakeTail => self.snake.get_growing() <= 0,
            _ => false,
        }
    }

    /// Makes `new_head` the head and marks the board accordingly.
    fn advance_head(&mut self, new_head: &CoordWithDirection)
        requires
            old(self).world.wf(),
            old(self)@.body.len() >= 1,
            old(self)@.covers(old(self)@.body[0].coord),
            old(self)@.covers(new_head.coord),
        ensures
            final(self)@ == old(self)@.advanced(*new_head),
            final(self).world.wf(),
    {
        let old_head = self.snake.head();
        let left = if self.snake.len() == 1 {
            ItemType::SnakeTail
        } else {
            ItemType::SnakeBit
        };
        self.world.set(&old_head.coord, left);
        self.snake.push_head(*new_head);
        self.world.set(&new_head.coord, ItemType::SnakeHead);
    }

    /// Draws the tail in by one segment and marks the board accordingly.
    fn bring_up_tail(&mut self)
        requires
            old(self).world.wf(),
            old(self)@.body.len() >= 2,
            old(self)@.covers(old(self)@.body.last().coord),
            old(self)@.covers(old(self)@.body[old(self)@.body.len() - 2].coord),
        ensures
            final(self)@ == old(self)@.retracted(),
            final(self).world.wf(),
    {
        let old_tail = self.snake.pop_tail();
        self.world.set(&old_tail.coord, ItemType::Nothing);
        if self.snake.len() >= 2 {
            let new_tail = self.snake.tail();
            self.world.set(&new_tail.coord, ItemType::SnakeTail);
        }
    }

    /// Puts food on `respawn` if that is an empty cell of the board.
    fn respawn_food(&mut self, respawn: Option<Coord>)
        requires
            old(self).world.wf(),
        ensures
            final(self)@ == old(self)@.with_food(respawn),
            final(self).world.wf(),
    {
        match respawn {
            Some(at) => {
                if self.world.in_range(&at) && self.world.get(&at) == ItemType::Nothing {
                    self.world.set(&at, ItemType::Food);
                }
            },
            None => {},
        }
    }

    /// Moves the snake one step onto the cell of `new_head`, which it is
    /// free to enter: eats what food lies there, moves the head, and lets
    /// the tail follow.
    fn move_snake(&mut self, new_head: &CoordWithDirection, respawn: Option<Coord>)
        requires
            old(self).wf(),
            old(self)@.can_advance(),
            *new_head == old(self)@.next_head(),
        ensures
            final(self)@ == old(self)@.moved(respawn),
            final(self).wf(),
    {
        let ghost before = self@;
        proof {
            lemma_next_head_admitted(before);
            lemma_length_bounded(before);
            lemma_moved_wf(before, respawn);
        }
        if self.world.get(&new_head.coord) == ItemType::Food {
            let grown = self.snake.get_growing() + SNAKE_GROWTH_PER_FOOD;
            self.snake.set_growing(grown);
            proof {
                lemma_with_food_keeps_trail(self@, respawn);
            }
            self.respawn_food(respawn);
            assert(self@ == before.fed(respawn));
        }
        let ghost fed = self@;
        proof {
            assert(fed.admits_head(*new_head));
            lemma_advanced_mid_tick(fed, *new_head);
        }
        self.advance_head(new_head);
        let ghost advanced = self@;
        let growing = self.snake.get_growing();
        if growing <= 0 {
            proof {
                lemma_retracted_mid_tick(advanced);
            }
            self.bring_up_tail();
            if growing < 0 {
                proof {
                    lemma_retracted_mid_tick(advanced.retracted());
                }
                self.bring_up_tail();
                self.snake.set_growing(growing + 1);
            }
        } else {
            self.snake.set_growing(growing - 1);
        }
        assert(self@ == advanced.settled());
    }

    /// Tries to move the snake one step on its heading.
    fn try_move_snake(&mut self, respawn: Option<Coord>) -> (r: StateTransition)
        requires
            old(self).wf(),
        ensures
            final(self)@ == old(self)@.moved(respawn),
            final(self).wf(),
            r == old(self)@.advance_result(),
    {
        proof {
            lemma_board_sides(self@);
        }
        let old_head = self.snake.head();
        assert(self@.covers(self@.body[0].coord));
        match self.try_create_target(&old_head) {
            Some(new_head) => {
                if self.snake_can_move(&new_head) {
                    self.move_snake(&new_head, respawn);
                    StateTransition::Continue
                } else {
                    StateTransition::Stop
                }
            },
            None => StateTransition::Stop,
        }
    }

    /// One tick of the game, with the cell for new food given by the
    /// caller: consumes the pending input, then moves the snake one step
    /// unless a wall or the snake itself is in the way. If the step eats
    /// food, new food is dropped on `respawn`, provided that is an empty
    /// cell of the board.
    pub fn update_state_with(&mut self, respawn: Option<Coord>) -> (r: StateTransition)
        requires
            old(self).wf(),
        ensures
            final(self).wf(),
            final(self)@ == old(self)@.step(respawn),
            r == old(self)@.step_result(),
            old(self)@.consistent() && !old(self)@.chases_tail() ==> final(self)@.consistent(),
            old(self)@.at_most_one_food() ==> final(self)@.at_most_one_food(),
    {
        proof {
            if self@.at_most_one_food() {
                lemma_at_most_one_food(self@, respawn);
            }
            lemma_after_input_wf(self@);
            lemma_moved_wf(self@.after_input(), respawn);
            assert(self@.after_input().tail_cell() == self@.tail_cell());
        }
        match self.process_input() {
            StateTransition::Continue => self.try_move_snake(respawn),
            s => s,
        }
    }

    /// One tick of the game: consumes the pending input, then moves the
    /// snake one step unless a wall or the snake itself is in the way. If
    /// the step eats food, new food is dropped on an empty cell found by
    /// `FOOD_ATTEMPTS` random tries, or nowhere if none of them hits one.
    pub fn update_state(&mut self) -> (r: StateTransition)
        requires
            old(self).wf(),
        ensures
            final(self).wf(),
            r == old(self)@.step_result(),
            exists|respawn: Option<Coord>|
                (respawn is None || old(self)@.can_hold_food(respawn)) && final(self)@
                    == #[trigger] old(self)@.step(respawn),
            !old(self)@.eats() ==> final(self)@ == old(self)@.step(None),
            old(self)@.consistent() && !old(self)@.chases_tail() ==> final(self)@.consistent(),
            old(self)@.at_most_one_food() ==> final(self)@.at_most_one_food(),
    {
        let respawn = if self.food_ahead() {
            self.pick_empty_cell()
        } else {
            None
        };
        self.update_state_with(respawn)
    }

    // ---------------------------------------------------------------
    // Food
    // ---------------------------------------------------------------
    /// Whether the next tick eats food.
    pub fn food_ahead(&self) -> (r: bool)
        requires
            self.wf(),
        ensures
            r == self@.eats(),
    {
        proof {
            lemma_board_sides(self@);
            lemma_after_input_wf(self@);
            assert(self@.covers(self@.body[0].coord));
        }
        let head = self.snake.head();
        let heading = match self.pending_input {
            Some(direction) => {
                if head.dir_next != direction.get_disallowed() {
                    direction
                } else {
                    head.dir_next
                }
            },
            None => head.dir_next,
        };
        let target = head.coord.calculate_neighbor(heading);
        self.world.in_range(&target) && self.world.get(&target) == ItemType::Food
    }

    /// An empty cell of the board, found by up to `FOOD_ATTEMPTS` random
    /// tries; `None` if every try hit a cell that holds something. Each
    /// try draws a cell of the board; the first one that is empty is the
    /// result, and no cell is tried after it.
    pub fn pick_empty_cell(&self) -> (r: Option<Coord>)
        requires
            self.wf(),
        ensures
            r is None || self@.can_hold_food(r),
            exists|tried: Seq<Coord>| #[trigger] self@.searched(tried, r),
    {
        let xrange = self.world.get_xrange();
        let yrange = self.world.get_yrange();
        let ghost mut tried: Seq<Coord> = Seq::empty();
        let mut tries: u32 = 0;
        while tries < FOOD_ATTEMPTS
            invariant
                self.wf(),
                (xrange.0 as int, xrange.1 as int) == coordinate_range(self@.width),
                (yrange.0 as int, yrange.1 as int) == coordinate_range(self@.height),
                tries <= FOOD_ATTEMPTS,
                tried.len() == tries,
                forall|i: int| 0 <= i < tried.len() ==> self@.taken(#[trigger] tried[i]),
            decreases FOOD_ATTEMPTS - tries,
        {
            let at = Coord {
                x: random_in_range(xrange.0, xrange.1),
                y: random_in_range(yrange.0, yrange.1),
            };
            if self.world.get(&at) == ItemType::Nothing {
                proof {
                    let all = tried.push(at);
                    assert forall|i: int| 0 <= i < all.len() - 1 implies self@.taken(
                        #[trigger] all[i],
                    ) by {
                        assert(all[i] == tried[i]);
                    }
                    assert(self@.searched(all, Some(at)));
                }
                return Some(at);
            }
            proof {
                let longer = tried.push(at);
                assert forall|i: int| 0 <= i < longer.len() implies self@.taken(
                    #[trigger] longer[i],
                ) by {
                    if i < tried.len() {
                        assert(longer[i] == tried[i]);
                    }
                }
                tried = longer;
            }
            tries = tries + 1;
        }
        assert(self@.searched(tried, None));
        None
    }

    /// Puts food on `at` if that is an empty cell of the board and not the
    /// cell of the head, and says whether it did.
    pub fn place_food(&mut self, at: Coord) -> (r: bool)
        requires
            old(self).wf(),
        ensures
            r == (old(self)@.can_hold_food(Some(at)) && at != old(self)@.body[0].coord),
            r ==> final(self)@ == old(self)@.with_food(Some(at)),
            !r ==> final(self)@ == old(self)@,
            final(self).wf(),
            old(self)@.consistent() ==> final(self)@.consistent(),
    {
        let head = self.snake.head();
        if at.x == head.coord.x && at.y == head.coord.y {
            return false;
        }
        if !self.world.in_range(&at) {
            return false;
        }
        if self.world.get(&at) != ItemType::Nothing {
            return false;
        }
        proof {
            lemma_with_food_wf(self@, Some(at));
        }
        self.respawn_food(Some(at));
        true
    }

    /// Drops new food on an empty cell found by `pick_empty_cell`, and
    /// returns that cell; `None` if none was found: then `FOOD_ATTEMPTS`
    /// cells of the board were tried, each of them held something, and the
    /// board is as it was.
    pub fn drop_new_food(&mut self) -> (r: Option<Coord>)
        requires
            old(self).wf(),
            old(self)@.consistent(),
        ensures
            r is None || old(self)@.can_hold_food(r),
            exists|tried: Seq<Coord>| #[trigger] old(self)@.searched(tried, r),
            final(self)@ == old(self)@.with_food(r),
            final(self).wf(),
            final(self)@.consistent(),
    {
        let found = self.pick_empty_cell();
        proof {
            lemma_with_food_wf(self@, found);
        }
        self.respawn_food(found);
        found
    }
}

} // verus!
