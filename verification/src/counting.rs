//! A snake whose segments lie on different cells of the board has no more
//! segments than the board has cells.

use crate::coord::Coord;
use crate::grid::coordinate_range;
use crate::model::GameModel;
use vstd::prelude::*;
use vstd::set_lib::{lemma_int_range, lemma_len_subset, set_int_range};

verus! {

/// The number of the cell `c` when the cells of a board `width` cells wide
/// are counted row by row from the top left.
pub open spec fn cell_number(width: int, height: int, c: Coord) -> int {
    (c.y - coordinate_range(height).0) * width + (c.x - coordinate_range(width).0)
}

/// Counting row by row gives each cell a number of its own, below the
/// number of cells.
proof fn lemma_cell_number(width: int, row: int, col: int, other_row: int, other_col: int)
    requires
        0 <= col < width,
        0 <= other_col < width,
        0 <= row,
        0 <= other_row,
    ensures
        row * width + col == other_row * width + other_col ==> row == other_row && col
            == other_col,
        0 <= row * width + col,
{
    assert(0 <= row * width) by (nonlinear_arith)
        requires
            0 <= row,
            0 < width,
    ;
    if row < other_row {
        assert(other_row * width >= (row + 1) * width) by (nonlinear_arith)
            requires
                row + 1 <= other_row,
                0 < width,
        ;
        assert((row + 1) * width == row * width + width) by (nonlinear_arith);
    } else if other_row < row {
        assert(row * width >= (other_row + 1) * width) by (nonlinear_arith)
            requires
                other_row + 1 <= row,
                0 < width,
        ;
        assert((other_row + 1) * width == other_row * width + width) by (nonlinear_arith);
    }
}

/// The number of a cell in row `row` is below `width * height`.
proof fn lemma_cell_number_bound(width: int, height: int, row: int, col: int)
    requires
        0 <= col < width,
        0 <= row < height,
    ensures
        row * width + col < width * height,
{
    assert((row + 1) * width <= height * width) by (nonlinear_arith)
        requires
            row + 1 <= height,
            0 < width,
    ;
    assert((row + 1) * width == row * width + width) by (nonlinear_arith);
    assert(height * width == width * height) by (nonlinear_arith);
}

/// A snake that lies on the board without overlap has at most as many
/// segments as the board has cells.
pub proof fn lemma_length_bounded(m: GameModel)
    requires
        m.board_ok(),
        m.on_the_board(),
        m.no_overlap(),
    ensures
        m.body.len() <= m.width * m.height,
{
    let w = m.width;
    let h = m.height;
    let numbers = Seq::new(m.body.len(), |i: int| cell_number(w, h, m.body[i].coord));
    assert forall|i: int, j: int| 0 <= i < numbers.len() && 0 <= j < numbers.len() && i
        != j implies numbers[i] != numbers[j] by {
        let a = m.body[i].coord;
        let b = m.body[j].coord;
        assert(m.covers(a) && m.covers(b));
        if i < j {
            assert(m.body[i].coord != m.body[j].coord);
        } else {
            assert(m.body[j].coord != m.body[i].coord);
        }
        lemma_cell_number(
            w,
            a.y - coordinate_range(h).0,
            a.x - coordinate_range(w).0,
            b.y - coordinate_range(h).0,
            b.x - coordinate_range(w).0,
        );
    }
    assert(numbers.no_duplicates());
    numbers.unique_seq_to_set();
    assert(0 <= w * h) by (nonlinear_arith)
        requires
            0 <= w,
            0 <= h,
    ;
    lemma_int_range(0, w * h);
    assert forall|n: int| numbers.to_set().contains(n) implies set_int_range(0, w * h).contains(
        n,
    ) by {
        let i = choose|i: int| 0 <= i < numbers.len() && numbers[i] == n;
        let a = m.body[i].coord;
        assert(m.covers(a));
        lemma_cell_number(
            w,
            a.y - coordinate_range(h).0,
            a.x - coordinate_range(w).0,
            a.y - coordinate_range(h).0,
            a.x - coordinate_range(w).0,
        );
        lemma_cell_number_bound(w, h, a.y - coordinate_range(h).0, a.x - coordinate_range(w).0);
    }
    lemma_len_subset(numbers.to_set(), set_int_range(0, w * h));
}

} // verus!
