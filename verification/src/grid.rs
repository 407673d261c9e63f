//! The image as a grid of pixels: which images are grids at all, what the
//! pixel at a coordinate is, and how the byte buffer relates to the grid.

use vstd::prelude::*;
use raster::{Color, Image};
use crate::codec::{color_at, index_fits, pixel_start, with_color};

verus! {

/// An image is a grid when its dimensions are non-negative, its buffer holds
/// exactly four bytes for each pixel, and every byte index fits in `i32`, the
/// type in which the pixel accessors compute.
pub open spec fn well_formed(image: Image) -> bool {
    &&& 0 <= image.width
    &&& 0 <= image.height
    &&& image.bytes@.len() == 4 * (image.width * image.height)
    &&& image.bytes@.len() <= i32::MAX
}

/// Whether `(x, y)` is a coordinate of the image.
pub open spec fn in_grid(image: Image, x: int, y: int) -> bool {
    0 <= x < image.width && 0 <= y < image.height
}

/// The pixel at `(x, y)`.
pub open spec fn pixel_at(image: Image, x: int, y: int) -> Color {
    color_at(image.bytes@, pixel_start(image.width as int, x, y))
}

/// Decides whether an image is a grid.
pub fn is_well_formed(image: &Image) -> (ok: bool)
    ensures
        ok == well_formed(*image),
{
    if image.width < 0 || image.height < 0 {
        return false;
    }
    let len: usize = image.bytes.len();
    if len > 0x7fff_ffff {
        return false;
    }
    let w: u64 = image.width as u64;
    let h: u64 = image.height as u64;
    assert(w * h <= 0x7fff_ffff * 0x7fff_ffff) by (nonlinear_arith)
        requires
            w <= 0x7fff_ffff,
            h <= 0x7fff_ffff,
    ;
    let pixels: u64 = w * h;
    4 * pixels == len as u64
}

/// Every coordinate of a grid has its four bytes in the buffer, at an index
/// that the accessors can compute.
pub proof fn lemma_pixel_in_buffer(image: Image, x: int, y: int)
    requires
        well_formed(image),
        in_grid(image, x, y),
    ensures
        0 <= pixel_start(image.width as int, x, y),
        pixel_start(image.width as int, x, y) + 4 <= image.bytes@.len(),
        index_fits(image.width as int, x, y),
{
    let w = image.width as int;
    let h = image.height as int;
    assert(0 <= y * w && y * w + w <= w * h) by (nonlinear_arith)
        requires
            0 <= y < h,
            0 <= w,
    ;
}

/// Two different coordinates never share a byte.
pub proof fn lemma_pixels_apart(width: int, x1: int, y1: int, x2: int, y2: int)
    requires
        0 <= x1 < width,
        0 <= x2 < width,
        x1 != x2 || y1 != y2,
    ensures
        pixel_start(width, x1, y1) + 4 <= pixel_start(width, x2, y2) || pixel_start(
            width,
            x2,
            y2,
        ) + 4 <= pixel_start(width, x1, y1),
{
    if y1 < y2 {
        assert(y1 * width + width <= y2 * width) by (nonlinear_arith)
            requires
                y1 < y2,
                0 < width,
        ;
    } else if y2 < y1 {
        assert(y2 * width + width <= y1 * width) by (nonlinear_arith)
            requires
                y2 < y1,
                0 < width,
        ;
    }
}

/// Storing a color at one coordinate of a grid gives a grid in which that
/// pixel has the color and every other pixel is as before.
pub proof fn lemma_store(before: Image, after: Image, x: int, y: int, color: Color)
    requires
        well_formed(before),
        in_grid(before, x, y),
        after.width == before.width,
        after.height == before.height,
        after.bytes@ == with_color(before.bytes@, pixel_start(before.width as int, x, y), color),
    ensures
        well_formed(after),
        pixel_at(after, x, y) == color,
        forall|x2: int, y2: int|
            in_grid(before, x2, y2) && (x2 != x || y2 != y) ==> #[trigger] pixel_at(after, x2, y2)
                == pixel_at(before, x2, y2),
{
    lemma_pixel_in_buffer(before, x, y);
    assert forall|x2: int, y2: int| in_grid(before, x2, y2) && (x2 != x || y2 != y) implies 
        #[trigger] pixel_at(after, x2, y2) == pixel_at(before, x2, y2) by {
        lemma_pixel_in_buffer(before, x2, y2);
        lemma_pixels_apart(before.width as int, x, y, x2, y2);
    }
}

} // verus!
