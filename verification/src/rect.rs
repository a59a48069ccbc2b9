//! Rectangles of pixels, and how they turn with the heading of what they
//! show.

use crate::direction::Direction;
use vstd::prelude::*;

verus! {

/// A rectangle of pixels: the place of its top left corner, its width and
/// its height.
#[derive(Copy, Clone, Debug, PartialEq, Eq)]
pub struct PixelRect {
    pub x: i32,
    pub y: i32,
    pub w: u32,
    pub h: u32,
}

/// The rectangle inside the tile of a cell, `margin` pixels from each side
/// of the tile. Tiles are `tile` pixels wide and high; `at` gives column
/// and row of the cell.
pub open spec fn tile_inset(at: (int, int), tile: int, margin: int) -> (int, int, int, int) {
    (at.0 * tile + margin, at.1 * tile + margin, tile - 2 * margin, tile - 2 * margin)
}

/// `rect` given a quarter turn about its bottom right corner for the
/// headings `Up` and `Down`: width and height change places. For `Left`
/// and `Right` it is returned as it is.
pub open spec fn quarter_turned(rect: PixelRect, direction: Direction) -> (int, int, int, int) {
    match direction {
        Direction::Right => (rect.x as int, rect.y as int, rect.w as int, rect.h as int),
        Direction::Left => (rect.x as int, rect.y as int, rect.w as int, rect.h as int),
        _ => (rect.x + rect.w - rect.h, rect.y + rect.h - rect.w, rect.h as int, rect.w as int),
    }
}

/// `rect`, drawn for the heading `Up`, turned about `center` to the heading
/// `direction`: the rectangle spanned by its corners after the rotation
/// with the matrix of `direction`.
pub open spec fn turned_about(center: (int, int), rect: PixelRect, direction: Direction) -> (
    int,
    int,
    int,
    int,
) {
    let (cx, cy) = center;
    match direction {
        Direction::Up => (rect.x as int, rect.y as int, rect.w as int, rect.h as int),
        Direction::Down => (
            2 * cx - rect.x - rect.w,
            2 * cy - rect.y - rect.h,
            rect.w as int,
            rect.h as int,
        ),
        Direction::Left => (
            cx + rect.y - cy,
            cy + cx - rect.x - rect.w,
            rect.h as int,
            rect.w as int,
        ),
        Direction::Right => (
            cx + cy - rect.y - rect.h,
            cy + rect.x - cx,
            rect.h as int,
            rect.w as int,
        ),
    }
}

/// The four numbers of a rectangle.
pub open spec fn numbers(rect: PixelRect) -> (int, int, int, int) {
    (rect.x as int, rect.y as int, rect.w as int, rect.h as int)
}

/// Whether four numbers are the place and the extent of a rectangle of
/// pixels: the place fits `i32`, and the extent is not negative and fits
/// `u32`.
pub open spec fn is_rect(n: (int, int, int, int)) -> bool {
    &&& i32::MIN <= n.0 <= i32::MAX
    &&& i32::MIN <= n.1 <= i32::MAX
    &&& 0 <= n.2 <= u32::MAX
    &&& 0 <= n.3 <= u32::MAX
}

/// The rectangle inside the tile of the cell in column `at.0` and row
/// `at.1`, `margin` pixels from each side of the tile.
pub fn cell_rect(at: &(usize, usize), tile: u32, margin: u32) -> (r: PixelRect)
    requires
        is_rect(tile_inset((at.0 as int, at.1 as int), tile as int, margin as int)),
    ensures
        numbers(r) == tile_inset((at.0 as int, at.1 as int), tile as int, margin as int),
{
    proof {
        assert(0 <= at.0 * tile && 0 <= at.1 * tile) by (nonlinear_arith)
            requires
                0 <= at.0,
                0 <= at.1,
                0 <= tile,
        ;
    }
    let x = (at.0 as u64 * tile as u64) + margin as u64;
    let y = (at.1 as u64 * tile as u64) + margin as u64;
    PixelRect { x: x as i32, y: y as i32, w: tile - (margin * 2), h: tile - (margin * 2) }
}

/// `rect` turned to the heading `direction` on the spot.
pub fn rotate_rect(rect: &PixelRect, direction: &Direction) -> (r: PixelRect)
    requires
        is_rect(quarter_turned(*rect, *direction)),
    ensures
        numbers(r) == quarter_turned(*rect, *direction),
{
    match direction {
        Direction::Right | Direction::Left => *rect,
        Direction::Down | Direction::Up => {
            let x = rect.x as i64 + rect.w as i64 - rect.h as i64;
            let y = rect.y as i64 + rect.h as i64 - rect.w as i64;
            PixelRect { x: x as i32, y: y as i32, w: rect.h, h: rect.w }
        },
    }
}

/// `rect`, drawn for the heading `Up`, turned about `center` to the heading
/// `direction`.
pub fn rotate_rect_old(center: &(i32, i32), rect: &PixelRect, direction: &Direction) -> (r:
    PixelRect)
    requires
        is_rect(turned_about((center.0 as int, center.1 as int), *rect, *direction)),
    ensures
        numbers(r) == turned_about((center.0 as int, center.1 as int), *rect, *direction),
{
    let matrix = direction.rotation_matrix();
    let a = (matrix.0).0 as i64;
    let b = (matrix.0).1 as i64;
    let c = (matrix.1).0 as i64;
    let d = (matrix.1).1 as i64;
    let cx = center.0 as i64;
    let cy = center.1 as i64;
    // the corners, seen from the centre
    let left = rect.x as i64 - cx;
    let right = rect.x as i64 + rect.w as i64 - cx;
    let top = rect.y as i64 - cy;
    let bottom = rect.y as i64 + rect.h as i64 - cy;
    proof {
        assert(-1 <= a <= 1 && -1 <= b <= 1 && -1 <= c <= 1 && -1 <= d <= 1);
        lemma_unit_products(left as int, right as int, a as int);
        lemma_unit_products(left as int, right as int, c as int);
        lemma_unit_products(top as int, bottom as int, b as int);
        lemma_unit_products(top as int, bottom as int, d as int);
    }
    // rotate, and move back to where the centre is
    let top_left = ((left * a) + (top * b) + cx, (left * c) + (top * d) + cy);
    let top_right = ((right * a) + (top * b) + cx, (right * c) + (top * d) + cy);
    let bottom_right = ((right * a) + (bottom * b) + cx, (right * c) + (bottom * d) + cy);
    let bottom_left = ((left * a) + (bottom * b) + cx, (left * c) + (bottom * d) + cy);
    // find the corners that are top left and bottom right after the turn
    let pts = match direction {
        Direction::Up => (top_left, bottom_right),
        Direction::Down => (bottom_right, top_left),
        Direction::Left => (top_right, bottom_left),
        Direction::Right => (bottom_left, top_right),
    };
    PixelRect {
        x: (pts.0).0 as i32,
        y: (pts.0).1 as i32,
        w: ((pts.1).0 - (pts.0).0) as u32,
        h: ((pts.1).1 - (pts.0).1) as u32,
    }
}

/// The products of two numbers with -1, 0 or 1.
proof fn lemma_unit_products(v: int, u: int, s: int)
    requires
        -1 <= s <= 1,
    ensures
        s == 0 ==> v * s == 0 && u * s == 0,
        s == 1 ==> v * s == v && u * s == u,
        s == -1 ==> v * s == -v && u * s == -u,
{
    assert(v * 0 == 0 && v * 1 == v && v * (-1) == -v) by (nonlinear_arith);
    assert(u * 0 == 0 && u * 1 == u && u * (-1) == -u) by (nonlinear_arith);
}

} // verus!
