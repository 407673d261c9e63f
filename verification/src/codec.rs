//! What the verifier is told about the `raster` crate.
//!
//! `Image` and `Color` have only public fields of standard types, so the
//! verifier reads their real definitions. The two pixel accessors are given
//! contracts here; those contracts are believed, not proved.

use vstd::prelude::*;

verus! {

/// `raster::Image`: a width, a height and a byte buffer, all public. The
/// verifier reads the fields themselves, so nothing is assumed of the type.
#[verifier::external_type_specification]
pub struct ExImage(raster::Image);

/// `raster::Color`: four public channel bytes, read by the verifier as they
/// are.
#[verifier::external_type_specification]
pub struct ExColor(raster::Color);

/// `raster::error::RasterError`, carried through unread: the contracts below
/// say when an accessor fails, never with which variant.
#[verifier::external_type_specification]
#[verifier::external_body]
pub struct ExRasterError(raster::error::RasterError);

/// Index in the byte buffer of the red channel of pixel `(x, y)` in an image
/// that is `width` pixels wide: rows follow one another, four bytes a pixel.
pub open spec fn pixel_start(width: int, x: int, y: int) -> int {
    (y * width + x) * 4
}

/// The accessors compute a pixel's byte range in `i32`; this says that none
/// of the intermediate values leaves that type.
pub open spec fn index_fits(width: int, x: int, y: int) -> bool {
    &&& i32::MIN <= y * width <= i32::MAX
    &&& i32::MIN <= y * width + x <= i32::MAX
    &&& i32::MIN <= pixel_start(width, x, y)
    &&& pixel_start(width, x, y) + 4 <= i32::MAX
}

/// The color held in the four bytes of `bytes` that begin at `start`, in the
/// order red, green, blue, alpha.
pub open spec fn color_at(bytes: Seq<u8>, start: int) -> raster::Color {
    raster::Color { r: bytes[start], g: bytes[start + 1], b: bytes[start + 2], a: bytes[start + 3] }
}

/// `bytes` with the four channels of `color` written from `start` on.
pub open spec fn with_color(bytes: Seq<u8>, start: int, color: raster::Color) -> Seq<u8> {
    bytes.update(start, color.r).update(start + 1, color.g).update(start + 2, color.b).update(
        start + 3,
        color.a,
    )
}

/// `raster::Image::get_pixel`. It computes the byte range of the pixel and
/// succeeds exactly when that range starts at a non-negative index and ends
/// within the buffer; it then returns the four bytes found there. Neither
/// `width` nor `height` is compared with the coordinates. The call is
/// admitted only where the index arithmetic stays within `i32`.
pub assume_specification<'a>[ raster::Image::get_pixel ](
    image: &raster::Image,
    x: i32,
    y: i32,
) -> (res: raster::error::RasterResult<raster::Color>)
    requires
        index_fits(image.width as int, x as int, y as int),
    ensures
        match res {
            Ok(color) => {
                &&& 0 <= pixel_start(image.width as int, x as int, y as int)
                &&& pixel_start(image.width as int, x as int, y as int) + 4 <= image.bytes@.len()
                &&& color == color_at(
                    image.bytes@,
                    pixel_start(image.width as int, x as int, y as int),
                )
            },
            Err(_) => {
                ||| pixel_start(image.width as int, x as int, y as int) < 0
                ||| pixel_start(image.width as int, x as int, y as int) + 4 > image.bytes@.len()
            },
        },
;

/// `raster::Image::set_pixel`. It refuses a coordinate that is not below the
/// image's width or height, and a negative byte index; otherwise it stores
/// the four channels of `color` at the pixel's byte range and succeeds. The
/// image's dimensions are never touched, and a refused call changes nothing.
/// The call is admitted only where the index arithmetic stays within `i32`
/// and the bytes to be written exist.
pub assume_specification<'a>[ raster::Image::set_pixel ](
    image: &mut raster::Image,
    x: i32,
    y: i32,
    color: raster::Color,
) -> (res: raster::error::RasterResult<()>)
    requires
        index_fits(old(image).width as int, x as int, y as int),
        x < old(image).width && y < old(image).height && 0 <= pixel_start(
            old(image).width as int,
            x as int,
            y as int,
        ) ==> pixel_start(old(image).width as int, x as int, y as int) + 4 <= old(
            image,
        ).bytes@.len(),
    ensures
        final(image).width == old(image).width,
        final(image).height == old(image).height,
        match res {
            Ok(_) => {
                &&& x < old(image).width
                &&& y < old(image).height
                &&& 0 <= pixel_start(old(image).width as int, x as int, y as int)
                &&& final(image).bytes@ == with_color(
                    old(image).bytes@,
                    pixel_start(old(image).width as int, x as int, y as int),
                    color,
                )
            },
            Err(_) => {
                &&& x >= old(image).width || y >= old(image).height || pixel_start(
                    old(image).width as int,
                    x as int,
                    y as int,
                ) < 0
                &&& final(image).bytes@ == old(image).bytes@
            },
        },
;

} // verus!
