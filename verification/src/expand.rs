//! Replicating one line of pixels across the image, in place.

use vstd::prelude::*;
use raster::{Color, Image};
use crate::grid::{in_grid, lemma_pixel_in_buffer, lemma_store, pixel_at, well_formed};
use crate::error::ExpandError;
use crate::offset::Offset;

verus! {

/// The pixel of the source line from which `(x, y)` takes its value.
pub open spec fn source_pixel(image: Image, offset: Offset, x: int, y: int) -> Color {
    match offset {
        Offset::Row(row) => pixel_at(image, x, row as int),
        Offset::Col(col) => pixel_at(image, col as int, y),
    }
}

/// `after` is `before` with the source line replicated: the same dimensions,
/// and at every coordinate the pixel that `before` had on the source line.
pub open spec fn expands(before: Image, after: Image, offset: Offset) -> bool {
    &&& after.width == before.width
    &&& after.height == before.height
    &&& well_formed(after)
    &&& forall|x: int, y: int|
        in_grid(before, x, y) ==> #[trigger] pixel_at(after, x, y) == source_pixel(
            before,
            offset,
            x,
            y,
        )
}

/// What a call on `before` with `offset` owes: where the line exists,
/// success and the expanded image; where it does not, the error that names
/// the line, and the image untouched.
pub open spec fn expansion_result(
    before: Image,
    after: Image,
    offset: Offset,
    result: Result<(), ExpandError>,
) -> bool {
    if offset.within(before.width as int, before.height as int) {
        result is Ok && expands(before, after, offset)
    } else {
        result == Err::<(), ExpandError>(offset.rejection()) && after == before
    }
}

/// Makes every column of the image equal to column `x`.
pub fn expand_image_col(image: &mut Image, x: u32) -> (result: Result<(), ExpandError>)
    requires
        well_formed(*old(image)),
    ensures
        expansion_result(*old(image), *final(image), Offset::Col(x), result),
{
    let width: i32 = image.width;
    let height: i32 = image.height;
    if x >= width as u32 {
        return Err(ExpandError::OutOfBounds { x, y: 0 });
    }
    let source_x: i32 = x as i32;
    let ghost before = *image;
    let mut write_y: i32 = 0;
    while write_y < height
        invariant
            well_formed(before),
            well_formed(*image),
            image.width == before.width == width,
            image.height == before.height == height,
            0 <= source_x < width,
            0 <= write_y <= height,
            forall|x2: int, y2: int|
                0 <= x2 < width && 0 <= y2 < write_y ==> #[trigger] pixel_at(*image, x2, y2)
                    == pixel_at(before, source_x as int, y2),
            forall|x2: int, y2: int|
                0 <= x2 < width && write_y <= y2 < height ==> #[trigger] pixel_at(*image, x2, y2)
                    == pixel_at(before, x2, y2),
        decreases height - write_y,
    {
        proof {
            lemma_pixel_in_buffer(*image, source_x as int, write_y as int);
        }
        let pixel = image.get_pixel(source_x, write_y).unwrap();
        assert(pixel == pixel_at(*image, source_x as int, write_y as int));
        let mut write_x: i32 = 0;
        while write_x < width
            invariant
                well_formed(before),
                well_formed(*image),
                image.width == before.width == width,
                image.height == before.height == height,
                0 <= source_x < width,
                0 <= write_y < height,
                0 <= write_x <= width,
                pixel == pixel_at(before, source_x as int, write_y as int),
                forall|x2: int, y2: int|
                    0 <= x2 < width && 0 <= y2 < write_y ==> #[trigger] pixel_at(*image, x2, y2)
                        == pixel_at(before, source_x as int, y2),
                forall|x2: int|
                    0 <= x2 < write_x ==> #[trigger] pixel_at(*image, x2, write_y as int) == pixel,
                forall|x2: int|
                    write_x <= x2 < width ==> #[trigger] pixel_at(*image, x2, write_y as int)
                        == pixel_at(before, x2, write_y as int),
                forall|x2: int, y2: int|
                    0 <= x2 < width && write_y < y2 < height ==> #[trigger] pixel_at(
                        *image,
                        x2,
                        y2,
                    ) == pixel_at(before, x2, y2),
            decreases width - write_x,
        {
            let ghost stored = *image;
            proof {
                lemma_pixel_in_buffer(stored, write_x as int, write_y as int);
            }
            let color = Color { r: pixel.r, g: pixel.g, b: pixel.b, a: pixel.a };
            image.set_pixel(write_x, write_y, color).unwrap();
            proof {
                lemma_store(stored, *image, write_x as int, write_y as int, pixel);
            }
            write_x += 1;
        }
        write_y += 1;
    }
    Ok(())
}

/// Makes every row of the image equal to row `y`.
pub fn expand_image_row(image: &mut Image, y: u32) -> (result: Result<(), ExpandError>)
    requires
        well_formed(*old(image)),
    ensures
        expansion_result(*old(image), *final(image), Offset::Row(y), result),
{
    let width: i32 = image.width;
    let height: i32 = image.height;
    if y >= height as u32 {
        return Err(ExpandError::OutOfBounds { x: 0, y });
    }
    let source_y: i32 = y as i32;
    let ghost before = *image;
    let mut write_x: i32 = 0;
    while write_x < width
        invariant
            well_formed(before),
            well_formed(*image),
            image.width == before.width == width,
            image.height == before.height == height,
            0 <= source_y < height,
            0 <= write_x <= width,
            forall|x2: int, y2: int|
                0 <= x2 < write_x && 0 <= y2 < height ==> #[trigger] pixel_at(*image, x2, y2)
                    == pixel_at(before, x2, source_y as int),
            forall|x2: int, y2: int|
                write_x <= x2 < width && 0 <= y2 < height ==> #[trigger] pixel_at(*image, x2, y2)
                    == pixel_at(before, x2, y2),
        decreases width - write_x,
    {
        proof {
            lemma_pixel_in_buffer(*image, write_x as int, source_y as int);
        }
        let pixel = image.get_pixel(write_x, source_y).unwrap();
        assert(pixel == pixel_at(*image, write_x as int, source_y as int));
        let mut write_y: i32 = 0;
        while write_y < height
            invariant
                well_formed(before),
                well_formed(*image),
                image.width == before.width == width,
                image.height == before.height == height,
                0 <= source_y < height,
                0 <= write_x < width,
                0 <= write_y <= height,
                pixel == pixel_at(before, write_x as int, source_y as int),
                forall|x2: int, y2: int|
                    0 <= x2 < write_x && 0 <= y2 < height ==> #[trigger] pixel_at(*image, x2, y2)
                        == pixel_at(before, x2, source_y as int),
                forall|y2: int|
                    0 <= y2 < write_y ==> #[trigger] pixel_at(*image, write_x as int, y2) == pixel,
                forall|y2: int|
                    write_y <= y2 < height ==> #[trigger] pixel_at(*image, write_x as int, y2)
                        == pixel_at(before, write_x as int, y2),
                forall|x2: int, y2: int|
                    write_x < x2 < width && 0 <= y2 < height ==> #[trigger] pixel_at(
                        *image,
                        x2,
                        y2,
                    ) == pixel_at(before, x2, y2),
            decreases height - write_y,
        {
            let ghost stored = *image;
            proof {
                lemma_pixel_in_buffer(stored, write_x as int, write_y as int);
            }
            let color = Color { r: pixel.r, g: pixel.g, b: pixel.b, a: pixel.a };
            image.set_pixel(write_x, write_y, color).unwrap();
            proof {
                lemma_store(stored, *image, write_x as int, write_y as int, pixel);
            }
            write_y += 1;
        }
        write_x += 1;
    }
    Ok(())
}

/// Overwrites every pixel of the image with the pixel that the source line
/// has in the same row (for a column) or in the same column (for a row).
/// A line outside the image is refused before anything is written.
pub fn expand_image_pixels(image: &mut Image, offset: Offset) -> (result: Result<(), ExpandError>)
    requires
        well_formed(*old(image)),
    ensures
        expansion_result(*old(image), *final(image), offset, result),
{
    match offset {
        Offset::Col(x) => expand_image_col(image, x),
        Offset::Row(y) => expand_image_row(image, y),
    }
}

} // verus!
