//! What holds of every expansion, proved from the contracts of the
//! expanding functions.

use vstd::prelude::*;
use vstd::arithmetic::div_mod::{lemma_div_pos_is_pos, lemma_fundamental_div_mod, lemma_mod_pos_bound};
use raster::Image;
use crate::codec::pixel_start;
use crate::expand::expands;
use crate::grid::{in_grid, lemma_pixel_in_buffer, pixel_at, well_formed};
use crate::offset::Offset;

verus! {

/// Every byte of a grid belongs to exactly one pixel: byte `i` is channel
/// `i % 4` of the pixel at column `(i / 4) % width` of row `(i / 4) / width`.
pub proof fn lemma_byte_in_pixel(image: Image, i: int)
    requires
        well_formed(image),
        0 <= i < image.bytes@.len(),
    ensures
        0 < image.width,
        in_grid(image, (i / 4) % (image.width as int), (i / 4) / (image.width as int)),
        pixel_start(
            image.width as int,
            (i / 4) % (image.width as int),
            (i / 4) / (image.width as int),
        ) + i % 4 == i,
{
    let w = image.width as int;
    let h = image.height as int;
    let q = i / 4;
    assert(0 < w) by (nonlinear_arith)
        requires
            0 <= w,
            0 < 4 * (w * h),
    ;
    lemma_fundamental_div_mod(q, w);
    lemma_mod_pos_bound(q, w);
    lemma_div_pos_is_pos(q, w);
    assert(q / w < h) by (nonlinear_arith)
        requires
            w * (q / w) <= q,
            q < w * h,
            0 < w,
    ;
}

/// Two grids of the same dimensions that agree on every pixel hold the same
/// bytes.
pub proof fn lemma_same_pixels_same_bytes(first: Image, second: Image)
    requires
        well_formed(first),
        well_formed(second),
        first.width == second.width,
        first.height == second.height,
        forall|x: int, y: int|
            in_grid(first, x, y) ==> #[trigger] pixel_at(first, x, y) == pixel_at(second, x, y),
    ensures
        first.bytes@ == second.bytes@,
{
    assert forall|i: int| 0 <= i < first.bytes@.len() implies first.bytes@[i] == second.bytes@[i] by {
        lemma_byte_in_pixel(first, i);
        let w = first.width as int;
        let x = (i / 4) % w;
        let y = (i / 4) / w;
        lemma_pixel_in_buffer(first, x, y);
        assert(pixel_at(first, x, y) == pixel_at(second, x, y));
    }
    assert(first.bytes@ =~= second.bytes@);
}

/// After a column has been expanded, the pixels of each row are all equal,
/// and equal to the pixel that the row had in that column before.
pub proof fn lemma_columns_agree(before: Image, after: Image, col: u32)
    requires
        well_formed(before),
        col < before.width,
        expands(before, after, Offset::Col(col)),
    ensures
        forall|x1: int, x2: int, y: int|
            in_grid(after, x1, y) && in_grid(after, x2, y) ==> #[trigger] pixel_at(after, x1, y)
                == #[trigger] pixel_at(after, x2, y) && pixel_at(after, x1, y) == pixel_at(
                before,
                col as int,
                y,
            ),
{
}

/// After a row has been expanded, the pixels of each column are all equal,
/// and equal to the pixel that the column had in that row before.
pub proof fn lemma_rows_agree(before: Image, after: Image, row: u32)
    requires
        well_formed(before),
        row < before.height,
        expands(before, after, Offset::Row(row)),
    ensures
        forall|x: int, y1: int, y2: int|
            in_grid(after, x, y1) && in_grid(after, x, y2) ==> #[trigger] pixel_at(after, x, y1)
                == #[trigger] pixel_at(after, x, y2) && pixel_at(after, x, y1) == pixel_at(
                before,
                x,
                row as int,
            ),
{
}

/// An image and a line determine the expanded image: two expansions of the
/// same image by the same line hold the same bytes.
pub proof fn lemma_expansion_unique(before: Image, first: Image, second: Image, offset: Offset)
    requires
        well_formed(before),
        expands(before, first, offset),
        expands(before, second, offset),
    ensures
        first.width == second.width,
        first.height == second.height,
        first.bytes@ == second.bytes@,
{
    lemma_same_pixels_same_bytes(first, second);
}

/// Expanding is idempotent: expanding the expanded image again, by the same
/// line, gives the expanded image.
pub proof fn lemma_expand_twice(before: Image, once: Image, twice: Image, offset: Offset)
    requires
        well_formed(before),
        offset.within(before.width as int, before.height as int),
        expands(before, once, offset),
        expands(once, twice, offset),
    ensures
        twice.width == once.width,
        twice.height == once.height,
        twice.bytes@ == once.bytes@,
{
    assert forall|x: int, y: int| in_grid(once, x, y) implies #[trigger] pixel_at(once, x, y)
        == pixel_at(twice, x, y) by {
        match offset {
            Offset::Row(row) => {
                assert(pixel_at(once, x, row as int) == pixel_at(before, x, row as int));
            },
            Offset::Col(col) => {
                assert(pixel_at(once, col as int, y) == pixel_at(before, col as int, y));
            },
        }
    }
    lemma_same_pixels_same_bytes(once, twice);
}

} // verus!
