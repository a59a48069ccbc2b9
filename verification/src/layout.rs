//! States in which a snake has been laid out along a given run of cells on
//! an otherwise empty board, and how such a state is built segment by
//! segment from the head.

use crate::coord::Coord;
use crate::direction::Direction;
use crate::grid::{coordinate_range, on_board, ItemType};
use crate::model::{mark_of, seg_on, GameModel, INITIAL_SNAKE_LENGTH, MAX_CELLS};
use crate::snake::{link_ok, pushed_tail, CoordWithDirection};
use vstd::prelude::*;

verus! {

/// The direction of the step from `from` to `to`; `Up` if the two cells are
/// not side by side.
pub open spec fn towards(from: Coord, to: Coord) -> Direction {
    match from.spec_direction_to(to) {
        Some(d) => d,
        None => Direction::Up,
    }
}

/// The heading of a snake laid out along `cells`: away from its second
/// segment, or `Up` if it has one segment only.
pub open spec fn layout_heading(cells: Seq<Coord>) -> Direction {
    if cells.len() >= 2 {
        towards(cells[1], cells[0])
    } else {
        Direction::Up
    }
}

/// Segment `i` of the snake that lies along `cells` with heading `heading`.
/// Each segment behind the head heads for the segment before it.
pub open spec fn segment_along(
    cells: Seq<Coord>,
    heading: Direction,
    i: int,
) -> CoordWithDirection {
    CoordWithDirection {
        dir_next: if i >= 1 {
            towards(cells[i], cells[i - 1])
        } else {
            heading
        },
        coord: cells[i],
        dir_prev: if i + 1 < cells.len() {
            Some(towards(cells[i + 1], cells[i]).opposite())
        } else {
            None
        },
    }
}

/// Whether a snake of `len` segments can have `growing` cells to grow: no
/// more than twice its length, and, if negative, a debt that leaves it at
/// least one segment.
pub open spec fn growth_fits(len: int, growing: int) -> bool {
    &&& growing <= 2 * len
    &&& len + growing >= 1
}

/// Whether a board of the given size is one the game can be played on: it
/// has a cell, and no more than `MAX_CELLS`.
pub open spec fn board_size_ok(width: int, height: int) -> bool {
    &&& 1 <= width
    &&& 1 <= height
    &&& width * height <= MAX_CELLS
}

/// Cell `i + 1` of `cells` lies next to cell `i`.
pub open spec fn beside(cells: Seq<Coord>, i: int) -> bool {
    cells[i + 1].spec_direction_to(cells[i]) is Some
}

/// Whether a snake can lie along `cells` on a board of the given size:
/// there is a first cell, all cells are on the board, each lies next to the
/// one before it, and none occurs twice.
pub open spec fn valid_layout(width: int, height: int, cells: Seq<Coord>) -> bool {
    &&& board_size_ok(width, height)
    &&& cells.len() >= 1
    &&& forall|i: int| 0 <= i < cells.len() ==> on_board(width, height, #[trigger] cells[i])
    &&& forall|i: int| 0 <= i < cells.len() - 1 ==> #[trigger] beside(cells, i)
    &&& cells.no_duplicates()
}

/// The cells of the snake at the start of a game on a board `height` cells
/// high: a column of `INITIAL_SNAKE_LENGTH` cells at `x = 0`, head on top,
/// that leaves one row free below the tail.
pub open spec fn initial_cells(height: int) -> Seq<Coord> {
    Seq::new(
        INITIAL_SNAKE_LENGTH as nat,
        |i: int|
            Coord {
                x: 0,
                y: (coordinate_range(height).1 - INITIAL_SNAKE_LENGTH + i) as i32,
            },
    )
}

/// Whether a game can start on a board of the given size: the board is of
/// a valid size and high enough for the snake and the free row below it.
pub open spec fn board_fits(width: int, height: int) -> bool {
    &&& board_size_ok(width, height)
    &&& INITIAL_SNAKE_LENGTH + 1 <= height
}

impl GameModel {
    /// The state in which a snake lies along `cells` with heading `heading`
    /// on an otherwise empty board, with `growing` cells to grow and no
    /// input pending.
    pub open spec fn laid_out(
        width: int,
        height: int,
        cells: Seq<Coord>,
        heading: Direction,
        growing: int,
    ) -> GameModel {
        GameModel {
            width: width,
            height: height,
            cells: Map::new(
                |c: Coord| on_board(width, height, c),
                |c: Coord|
                    if cells.contains(c) {
                        mark_of(cells.index_of(c), cells.len() as int)
                    } else {
                        ItemType::Nothing
                    },
            ),
            body: Seq::new(cells.len(), |i: int| segment_along(cells, heading, i)),
            growing: growing,
            pending: None,
        }
    }

    /// Whether the snake can get a new tail on `c`: `c` is an empty cell of
    /// the board, not the cell of the head, and lies next to the tail.
    pub open spec fn can_extend_tail(self, c: Coord) -> bool {
        &&& self.covers(c)
        &&& self.cells[c] == ItemType::Nothing
        &&& c != self.body[0].coord
        &&& c.spec_direction_to(self.tail_cell()) is Some
    }

    /// The state with one more segment behind the tail, on cell `c`.
    pub open spec fn with_tail(self, c: Coord) -> GameModel {
        let behind = if self.body.len() == 1 {
            self.cells
        } else {
            self.cells.insert(self.tail_cell(), ItemType::SnakeBit)
        };
        GameModel {
            cells: behind.insert(c, ItemType::SnakeTail),
            body: pushed_tail(self.body, c, towards(c, self.tail_cell())),
            ..self
        }
    }

    /// Every cell of the board is empty or holds a segment of the snake.
    pub open spec fn no_food(self) -> bool {
        forall|c: Coord| self.covers(c) ==> #[trigger] self.cells[c] != ItemType::Food
    }
}

/// In a run of cells without repetition, each cell is found at its own
/// place.
proof fn lemma_index_of(cells: Seq<Coord>, i: int)
    requires
        cells.no_duplicates(),
        0 <= i < cells.len(),
    ensures
        cells.contains(cells[i]),
        cells.index_of(cells[i]) == i,
{
}

/// A snake laid out along a valid run of cells makes a state in which
/// board and snake agree. There is no food, and segment `i` lies on cell
/// `i` of the run.
pub proof fn lemma_laid_out_consistent(
    width: int,
    height: int,
    cells: Seq<Coord>,
    heading: Direction,
    growing: int,
)
    requires
        valid_layout(width, height, cells),
        growing <= 2 * cells.len(),
        cells.len() + growing >= 1,
    ensures
        GameModel::laid_out(width, height, cells, heading, growing).consistent(),
        GameModel::laid_out(width, height, cells, heading, growing).no_food(),
        GameModel::laid_out(width, height, cells, heading, growing).heading() == heading,
        forall|c: Coord|
            GameModel::laid_out(width, height, cells, heading, growing).occupies(c)
                <==> cells.contains(c),
{
    let m = GameModel::laid_out(width, height, cells, heading, growing);
    let n = cells.len() as int;
    assert forall|i: int| 0 <= i < m.body.len() - 1 implies #[trigger] link_ok(m.body, i) by {
        assert(beside(cells, i));
    }
    assert forall|i: int| 0 <= i < m.body.len() implies m.covers(#[trigger] m.body[i].coord) by {
        assert(on_board(width, height, cells[i]));
    }
    assert forall|i: int| 1 <= i < m.body.len() implies m.cells[(#[trigger] m.body[i]).coord]
        == mark_of(i, n) by {
        lemma_index_of(cells, i);
        assert(on_board(width, height, cells[i]));
    }
    assert forall|c: Coord| cells.contains(c) implies m.occupies(c) by {
        let i = cells.index_of(c);
        assert(seg_on(m.body, i, c));
    }
    assert forall|c: Coord| m.occupies(c) implies cells.contains(c) by {
        let i = choose|i: int| seg_on(m.body, i, c);
        assert(cells[i] == c);
    }
    lemma_index_of(cells, 0);
    assert(on_board(width, height, cells[0]));
}

/// A laid out snake can get a new tail on `c` exactly if the run of its
/// cells with `c` at the end is valid, and the state with the new tail is
/// the snake laid out along that run.
pub proof fn lemma_extend_layout(
    width: int,
    height: int,
    cells: Seq<Coord>,
    heading: Direction,
    growing: int,
    c: Coord,
)
    requires
        valid_layout(width, height, cells),
    ensures
        GameModel::laid_out(width, height, cells, heading, growing).can_extend_tail(c)
            <==> valid_layout(width, height, cells.push(c)),
        valid_layout(width, height, cells.push(c)) ==> GameModel::laid_out(
            width,
            height,
            cells,
            heading,
            growing,
        ).with_tail(c) == GameModel::laid_out(width, height, cells.push(c), heading, growing),
{
    let m = GameModel::laid_out(width, height, cells, heading, growing);
    let longer = cells.push(c);
    let n = cells.len() as int;
    lemma_index_of(cells, 0);
    lemma_index_of(cells, n - 1);
    assert(on_board(width, height, cells[0]));
    if m.can_extend_tail(c) {
        assert(!cells.contains(c));
        assert forall|i: int| 0 <= i < longer.len() implies on_board(
            width,
            height,
            #[trigger] longer[i],
        ) by {
            if i < n {
                assert(on_board(width, height, cells[i]));
            }
        }
        assert forall|i: int| 0 <= i < longer.len() - 1 implies #[trigger] beside(longer, i) by {
            if i < n - 1 {
                assert(beside(cells, i));
            }
        }
        assert forall|i: int, j: int|
            0 <= i < longer.len() && 0 <= j < longer.len() && i != j implies longer[i]
            != longer[j] by {
            if i < n && j < n {
                assert(cells[i] != cells[j]);
            }
        }
    }
    if valid_layout(width, height, longer) {
        assert(on_board(width, height, longer[n]));
        assert(beside(longer, n - 1));
        assert forall|i: int| 0 <= i < n implies cells[i] != c by {
            assert(longer[i] != longer[n]);
        }
        assert(m.can_extend_tail(c));
        let t = m.with_tail(c);
        let l = GameModel::laid_out(width, height, longer, heading, growing);
        assert(t.body =~= l.body);
        assert forall|k: Coord| on_board(width, height, k) implies #[trigger] t.cells[k]
            == l.cells[k] by {
            if k == c {
                assert(longer[n] == c);
                lemma_index_of(longer, n);
            } else if cells.contains(k) {
                let i = cells.index_of(k);
                assert(longer[i] == k);
                lemma_index_of(longer, i);
            } else {
                if longer.contains(k) {
                    let i = longer.index_of(k);
                    assert(i < n);
                    assert(cells[i] == k);
                }
            }
        }
        assert(t.cells =~= l.cells);
    }
}

/// At the start of a game the snake lies along a valid run of cells, and
/// it heads up.
pub proof fn lemma_initial_cells_valid(width: int, height: int)
    requires
        board_fits(width, height),
    ensures
        valid_layout(width, height, initial_cells(height)),
        layout_heading(initial_cells(height)) == Direction::Up,
        forall|k: int|
            1 <= k <= INITIAL_SNAKE_LENGTH ==> valid_layout(
                width,
                height,
                #[trigger] initial_cells(height).take(k),
            ),
{
    let cells = initial_cells(height);
    assert(height <= MAX_CELLS) by (nonlinear_arith)
        requires
            1 <= width,
            1 <= height,
            width * height <= MAX_CELLS,
    ;
    assert forall|i: int| 0 <= i < cells.len() - 1 implies #[trigger] beside(cells, i) by {
        assert(cells[i + 1].is_step(Direction::Up, cells[i]));
    }
    assert(cells[1].is_step(Direction::Up, cells[0]));
    assert forall|k: int| 1 <= k <= INITIAL_SNAKE_LENGTH implies valid_layout(
        width,
        height,
        #[trigger] cells.take(k),
    ) by {
        let part = cells.take(k);
        assert forall|i: int| 0 <= i < part.len() - 1 implies #[trigger] beside(part, i) by {
            assert(beside(cells, i));
        }
    }
}

/// The first `k` cells of a valid run of cells are a valid run too.
pub proof fn lemma_valid_prefix(width: int, height: int, cells: Seq<Coord>, k: int)
    requires
        valid_layout(width, height, cells),
        1 <= k <= cells.len(),
    ensures
        valid_layout(width, height, cells.take(k)),
{
    let part = cells.take(k);
    assert forall|i: int| 0 <= i < part.len() implies on_board(
        width,
        height,
        #[trigger] part[i],
    ) by {
        assert(on_board(width, height, cells[i]));
    }
    assert forall|i: int| 0 <= i < part.len() - 1 implies #[trigger] beside(part, i) by {
        assert(beside(cells, i));
    }
}

} // verus!
