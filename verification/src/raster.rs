//! Places in a pixel buffer: the bytes of an image lie row by row, pixel
//! by pixel, channel by channel.

use vstd::arithmetic::div_mod::{
    lemma_div_multiples_vanish, lemma_div_pos_is_pos, lemma_fundamental_div_mod,
    lemma_fundamental_div_mod_converse,
};
use vstd::prelude::*;

verus! {

/// The place in the buffer of channel `channel` of the pixel in column `x`
/// of row `y`, in an image `width` pixels wide with `bpp` bytes per pixel.
pub open spec fn buffer_index(x: int, y: int, channel: int, width: int, bpp: int) -> int {
    ((y * width) + x) * bpp + channel
}

/// Column, row and channel of the byte at place `index` of the buffer.
pub open spec fn buffer_place(index: int, width: int, bpp: int) -> (int, int, int) {
    ((index / bpp) % width, (index / bpp) / width, index % bpp)
}

/// Taking the remainder off a number before dividing it changes nothing.
proof fn lemma_div_without_remainder(v: int, d: int)
    requires
        0 < d,
    ensures
        (v - v % d) / d == v / d,
{
    lemma_fundamental_div_mod(v, d);
    lemma_div_multiples_vanish(v / d, d);
}

/// The remainder of a number that is not negative is no greater than the
/// number.
proof fn lemma_remainder_within(v: int, d: int)
    requires
        0 <= v,
        0 < d,
    ensures
        0 <= v % d <= v,
{
    lemma_fundamental_div_mod(v, d);
    lemma_div_pos_is_pos(v, d);
    assert(0 <= d * (v / d)) by (nonlinear_arith)
        requires
            0 < d,
            0 <= v / d,
    ;
}

/// The byte at the place of column `x`, row `y` and channel `channel` has
/// that column, row and channel.
pub proof fn lemma_place_of_index(x: int, y: int, channel: int, width: int, bpp: int)
    requires
        0 <= x < width,
        0 <= channel < bpp,
    ensures
        buffer_place(buffer_index(x, y, channel, width, bpp), width, bpp) == (x, y, channel),
{
    let pixel = y * width + x;
    lemma_fundamental_div_mod_converse(
        buffer_index(x, y, channel, width, bpp),
        bpp,
        pixel,
        channel,
    );
    lemma_fundamental_div_mod_converse(pixel, width, y, x);
}

/// Column, row and channel of a byte lead back to its place.
pub proof fn lemma_index_of_place(index: int, width: int, bpp: int)
    requires
        0 < width,
        0 < bpp,
    ensures
        buffer_index(
            buffer_place(index, width, bpp).0,
            buffer_place(index, width, bpp).1,
            buffer_place(index, width, bpp).2,
            width,
            bpp,
        ) == index,
{
    let pixel = index / bpp;
    lemma_fundamental_div_mod(index, bpp);
    lemma_fundamental_div_mod(pixel, width);
    assert((pixel / width) * width == width * (pixel / width)) by (nonlinear_arith);
    assert(pixel * bpp == bpp * pixel) by (nonlinear_arith);
}

/// The parts of a place in the buffer, none of them negative, are no
/// greater than the place itself.
proof fn lemma_index_parts(x: int, y: int, channel: int, width: int, bpp: int)
    requires
        0 <= x,
        0 <= y,
        0 <= channel,
        0 <= width,
        0 <= bpp,
    ensures
        0 <= y * width,
        0 <= (y * width + x) * bpp,
        bpp >= 1 ==> y * width + x <= (y * width + x) * bpp,
{
    assert(0 <= y * width) by (nonlinear_arith)
        requires
            0 <= y,
            0 <= width,
    ;
    let pixel = y * width + x;
    assert(0 <= pixel * bpp) by (nonlinear_arith)
        requires
            0 <= pixel,
            0 <= bpp,
    ;
    if bpp >= 1 {
        assert(pixel <= pixel * bpp) by (nonlinear_arith)
            requires
                0 <= pixel,
                1 <= bpp,
        ;
    }
}

/// Column, row and channel of the byte at place `index`.
pub fn index_to_xyc(index: usize, width: usize, bpp: usize) -> (r: (usize, usize, usize))
    requires
        width > 0,
        bpp > 0,
    ensures
        (r.0 as int, r.1 as int, r.2 as int) == buffer_place(
            index as int,
            width as int,
            bpp as int,
        ),
        r.0 < width,
        r.2 < bpp,
{
    let channel: usize = index % bpp;
    proof {
        lemma_remainder_within(index as int, bpp as int);
        lemma_div_without_remainder(index as int, bpp as int);
    }
    let pixel_index: usize = (index - channel) / bpp;
    let x_px: usize = pixel_index % width;
    proof {
        lemma_remainder_within(pixel_index as int, width as int);
        lemma_div_without_remainder(pixel_index as int, width as int);
    }
    let y_px: usize = (pixel_index - x_px) / width;
    (x_px, y_px, channel)
}

/// The place in the buffer of channel `channel` of the pixel in column `x`
/// of row `y`.
pub fn xyc_to_index(x: usize, y: usize, channel: usize, width: usize, bpp: usize) -> (r: usize)
    requires
        bpp >= 1,
        buffer_index(x as int, y as int, channel as int, width as int, bpp as int) <= usize::MAX,
    ensures
        r == buffer_index(x as int, y as int, channel as int, width as int, bpp as int),
{
    proof {
        lemma_index_parts(x as int, y as int, channel as int, width as int, bpp as int);
    }
    (((y * width) + x) * bpp) + channel
}

/// The place of the byte that mirrors the byte at `bitmap_index` across
/// the diagonal: same channel, column and row exchanged.
pub fn xy_reflect(bitmap_index: usize, width: usize, bpp: usize) -> (r: usize)
    requires
        width > 0,
        bpp > 0,
        buffer_index(
            buffer_place(bitmap_index as int, width as int, bpp as int).1,
            buffer_place(bitmap_index as int, width as int, bpp as int).0,
            buffer_place(bitmap_index as int, width as int, bpp as int).2,
            width as int,
            bpp as int,
        ) <= usize::MAX,
    ensures
        r == buffer_index(
            buffer_place(bitmap_index as int, width as int, bpp as int).1,
            buffer_place(bitmap_index as int, width as int, bpp as int).0,
            buffer_place(bitmap_index as int, width as int, bpp as int).2,
            width as int,
            bpp as int,
        ),
{
    let (x_px, y_px, channel) = index_to_xyc(bitmap_index, width, bpp);
    xyc_to_index(y_px, x_px, channel, width, bpp)
}

/// The place of the byte that mirrors the byte at `bitmap_index` within
/// its row: same channel and row, columns counted from the right.
pub fn simple_rotate(bitmap_index: usize, width: usize, bpp: usize) -> (r: usize)
    requires
        width > 0,
        bpp > 0,
        buffer_index(
            width - buffer_place(bitmap_index as int, width as int, bpp as int).0 - 1,
            buffer_place(bitmap_index as int, width as int, bpp as int).1,
            buffer_place(bitmap_index as int, width as int, bpp as int).2,
            width as int,
            bpp as int,
        ) <= usize::MAX,
    ensures
        r == buffer_index(
            width - buffer_place(bitmap_index as int, width as int, bpp as int).0 - 1,
            buffer_place(bitmap_index as int, width as int, bpp as int).1,
            buffer_place(bitmap_index as int, width as int, bpp as int).2,
            width as int,
            bpp as int,
        ),
{
    let (x_px, y_px, channel) = index_to_xyc(bitmap_index, width, bpp);
    xyc_to_index(width - x_px - 1, y_px, channel, width, bpp)
}

/// The place of the byte at `bitmap_index`, found again from its column,
/// row and channel.
pub fn identity(bitmap_index: usize, width: usize, bpp: usize) -> (r: usize)
    requires
        width > 0,
        bpp > 0,
    ensures
        r == bitmap_index,
{
    let (x_px, y_px, channel) = index_to_xyc(bitmap_index, width, bpp);
    proof {
        lemma_index_of_place(bitmap_index as int, width as int, bpp as int);
    }
    xyc_to_index(x_px, y_px, channel, width, bpp)
}

} // verus!
