use pixel_expander::{
    expand_image_col, expand_image_pixels, expand_image_row, is_well_formed, ExpandError, Offset,
};
use raster::{Color, Image};

const A: (u8, u8, u8, u8) = (10, 11, 12, 13);
const B: (u8, u8, u8, u8) = (20, 21, 22, 23);
const C: (u8, u8, u8, u8) = (30, 31, 32, 33);
const D: (u8, u8, u8, u8) = (40, 41, 42, 43);

fn color(c: (u8, u8, u8, u8)) -> Color {
    Color::rgba(c.0, c.1, c.2, c.3)
}

fn pixel(image: &Image, x: i32, y: i32) -> (u8, u8, u8, u8) {
    let c = image.get_pixel(x, y).unwrap();
    (c.r, c.g, c.b, c.a)
}

/// The 2×2 image with `(0,0)=A, (1,0)=B, (0,1)=C, (1,1)=D`.
fn two_by_two() -> Image {
    let mut image = Image::blank(2, 2);
    image.set_pixel(0, 0, color(A)).unwrap();
    image.set_pixel(1, 0, color(B)).unwrap();
    image.set_pixel(0, 1, color(C)).unwrap();
    image.set_pixel(1, 1, color(D)).unwrap();
    image
}

/// A `width`×`height` image whose pixels are pairwise different.
fn numbered(width: i32, height: i32) -> Image {
    let mut image = Image::blank(width, height);
    for y in 0..height {
        for x in 0..width {
            let n = (y * width + x) as u8;
            image
                .set_pixel(x, y, Color::rgba(n, n.wrapping_add(100), x as u8, y as u8))
                .unwrap();
        }
    }
    image
}

#[test]
fn two_by_two_column_one() {
    let mut image = two_by_two();
    assert_eq!(expand_image_pixels(&mut image, Offset::Col(1)), Ok(()));
    assert_eq!(pixel(&image, 0, 0), B);
    assert_eq!(pixel(&image, 1, 0), B);
    assert_eq!(pixel(&image, 0, 1), D);
    assert_eq!(pixel(&image, 1, 1), D);
    assert_eq!(image.width, 2);
    assert_eq!(image.height, 2);
    assert_eq!(
        image.bytes,
        vec![20, 21, 22, 23, 20, 21, 22, 23, 40, 41, 42, 43, 40, 41, 42, 43]
    );
}

#[test]
fn two_by_two_row_zero() {
    let mut image = two_by_two();
    assert_eq!(expand_image_pixels(&mut image, Offset::Row(0)), Ok(()));
    assert_eq!(pixel(&image, 0, 0), A);
    assert_eq!(pixel(&image, 1, 0), B);
    assert_eq!(pixel(&image, 0, 1), A);
    assert_eq!(pixel(&image, 1, 1), B);
    assert_eq!(
        image.bytes,
        vec![10, 11, 12, 13, 20, 21, 22, 23, 10, 11, 12, 13, 20, 21, 22, 23]
    );
}

#[test]
fn two_by_two_row_two_is_out_of_bounds() {
    let mut image = two_by_two();
    let untouched = image.bytes.clone();
    let result = expand_image_pixels(&mut image, Offset::new(2, true));
    assert_eq!(result, Err(ExpandError::OutOfBounds { x: 0, y: 2 }));
    assert_eq!(image.bytes, untouched);
    assert_eq!((image.width, image.height), (2, 2));
}

#[test]
fn column_at_width_is_out_of_bounds() {
    let mut image = two_by_two();
    let untouched = image.bytes.clone();
    let result = expand_image_pixels(&mut image, Offset::Col(2));
    assert_eq!(result, Err(ExpandError::OutOfBounds { x: 2, y: 0 }));
    assert_eq!(image.bytes, untouched);
}

#[test]
fn row_at_height_is_out_of_bounds_in_a_tall_image() {
    let mut image = numbered(2, 5);
    let untouched = image.bytes.clone();
    assert_eq!(
        expand_image_row(&mut image, 5),
        Err(ExpandError::OutOfBounds { x: 0, y: 5 })
    );
    assert_eq!(image.bytes, untouched);
    assert_eq!(expand_image_row(&mut image, 4), Ok(()));
}

#[test]
fn column_at_width_is_out_of_bounds_in_a_wide_image() {
    let mut image = numbered(5, 2);
    let untouched = image.bytes.clone();
    assert_eq!(
        expand_image_col(&mut image, 5),
        Err(ExpandError::OutOfBounds { x: 5, y: 0 })
    );
    assert_eq!(image.bytes, untouched);
    assert_eq!(expand_image_col(&mut image, 4), Ok(()));
}

#[test]
fn coordinates_beyond_i32_are_out_of_bounds() {
    let mut image = two_by_two();
    let untouched = image.bytes.clone();
    assert_eq!(
        expand_image_pixels(&mut image, Offset::Col(u32::MAX)),
        Err(ExpandError::OutOfBounds { x: u32::MAX, y: 0 })
    );
    assert_eq!(
        expand_image_pixels(&mut image, Offset::Row(0x8000_0000)),
        Err(ExpandError::OutOfBounds { x: 0, y: 0x8000_0000 })
    );
    assert_eq!(image.bytes, untouched);
}

#[test]
fn every_column_becomes_the_source_column() {
    for source in 0..4u32 {
        let before = numbered(4, 3);
        let mut image = before.clone();
        assert_eq!(expand_image_col(&mut image, source), Ok(()));
        assert!(is_well_formed(&image));
        for y in 0..3 {
            for x in 0..4 {
                assert_eq!(pixel(&image, x, y), pixel(&before, source as i32, y));
                assert_eq!(pixel(&image, x, y), pixel(&image, 0, y));
            }
        }
    }
}

#[test]
fn every_row_becomes_the_source_row() {
    for source in 0..3u32 {
        let before = numbered(4, 3);
        let mut image = before.clone();
        assert_eq!(expand_image_row(&mut image, source), Ok(()));
        assert!(is_well_formed(&image));
        for y in 0..3 {
            for x in 0..4 {
                assert_eq!(pixel(&image, x, y), pixel(&before, x, source as i32));
                assert_eq!(pixel(&image, x, y), pixel(&image, x, 0));
            }
        }
    }
}

#[test]
fn expanding_twice_is_expanding_once() {
    for offset in [Offset::Col(0), Offset::Col(2), Offset::Row(1), Offset::Row(3)] {
        let mut image = numbered(3, 4);
        assert_eq!(expand_image_pixels(&mut image, offset), Ok(()));
        let once = image.clone();
        assert_eq!(expand_image_pixels(&mut image, offset), Ok(()));
        assert_eq!(image.bytes, once.bytes);
        assert_eq!((image.width, image.height), (once.width, once.height));
    }
}

#[test]
fn expansion_changes_an_image_that_is_not_uniform() {
    let before = numbered(3, 3);
    let mut by_col = before.clone();
    assert_eq!(expand_image_col(&mut by_col, 1), Ok(()));
    assert_ne!(by_col.bytes, before.bytes);
    let mut by_row = before.clone();
    assert_eq!(expand_image_row(&mut by_row, 1), Ok(()));
    assert_ne!(by_row.bytes, before.bytes);
    assert_ne!(by_row.bytes, by_col.bytes);
}

#[test]
fn single_pixel_image_is_its_own_expansion() {
    let mut image = Image::blank(1, 1);
    image.set_pixel(0, 0, color(A)).unwrap();
    assert_eq!(expand_image_pixels(&mut image, Offset::Col(0)), Ok(()));
    assert_eq!(image.bytes, vec![10, 11, 12, 13]);
    assert_eq!(expand_image_pixels(&mut image, Offset::Row(0)), Ok(()));
    assert_eq!(image.bytes, vec![10, 11, 12, 13]);
    assert_eq!(
        expand_image_pixels(&mut image, Offset::Row(1)),
        Err(ExpandError::OutOfBounds { x: 0, y: 1 })
    );
}

#[test]
fn empty_image_has_no_line() {
    let mut image = Image::blank(0, 0);
    assert!(is_well_formed(&image));
    assert_eq!(
        expand_image_pixels(&mut image, Offset::Col(0)),
        Err(ExpandError::OutOfBounds { x: 0, y: 0 })
    );
    assert_eq!(
        expand_image_pixels(&mut image, Offset::Row(0)),
        Err(ExpandError::OutOfBounds { x: 0, y: 0 })
    );
    assert!(image.bytes.is_empty());
}

#[test]
fn image_without_rows_has_columns_only() {
    let mut image = Image::blank(3, 0);
    assert!(is_well_formed(&image));
    assert_eq!(expand_image_pixels(&mut image, Offset::Col(2)), Ok(()));
    assert!(image.bytes.is_empty());
    assert_eq!(
        expand_image_pixels(&mut image, Offset::Col(3)),
        Err(ExpandError::OutOfBounds { x: 3, y: 0 })
    );
    assert_eq!(
        expand_image_pixels(&mut image, Offset::Row(0)),
        Err(ExpandError::OutOfBounds { x: 0, y: 0 })
    );
}

#[test]
fn offset_follows_the_orientation_flag() {
    assert_eq!(Offset::new(7, true), Offset::Row(7));
    assert_eq!(Offset::new(7, false), Offset::Col(7));
    assert_eq!(Offset::new(0, false), Offset::Col(0));
}

#[test]
fn well_formed_images_are_recognised() {
    assert!(is_well_formed(&Image::blank(2, 2)));
    assert!(is_well_formed(&numbered(7, 5)));
    assert!(is_well_formed(&Image { width: 0, height: 9, bytes: vec![] }));
}

#[test]
fn malformed_images_are_recognised() {
    let mut short = Image::blank(2, 2);
    short.bytes.pop();
    assert!(!is_well_formed(&short));
    let mut long = Image::blank(2, 2);
    long.bytes.push(0);
    assert!(!is_well_formed(&long));
    assert!(!is_well_formed(&Image { width: -1, height: -4, bytes: vec![0; 16] }));
    assert!(!is_well_formed(&Image { width: -2, height: 2, bytes: vec![] }));
    assert!(!is_well_formed(&Image { width: 2, height: 2, bytes: vec![0; 4] }));
    assert!(!is_well_formed(&Image { width: 0x4000_0000, height: 4, bytes: vec![] }));
}

#[test]
fn message_names_the_pixel() {
    assert_eq!(
        ExpandError::OutOfBounds { x: 0, y: 2 }.message(),
        "Pixel out of bounds: (0, 2)"
    );
    assert_eq!(
        ExpandError::OutOfBounds { x: 2, y: 0 }.message(),
        "Pixel out of bounds: (2, 0)"
    );
    assert_eq!(
        ExpandError::OutOfBounds { x: 10, y: 907 }.message(),
        "Pixel out of bounds: (10, 907)"
    );
    assert_eq!(
        ExpandError::OutOfBounds { x: u32::MAX, y: 1_000_000 }.message(),
        "Pixel out of bounds: (4294967295, 1000000)"
    );
}

#[test]
fn message_of_a_refused_expansion() {
    let mut image = two_by_two();
    let error = expand_image_pixels(&mut image, Offset::new(2, true)).unwrap_err();
    assert_eq!(error.message(), "Pixel out of bounds: (0, 2)");
    let error = expand_image_pixels(&mut image, Offset::new(2, false)).unwrap_err();
    assert_eq!(error.message(), "Pixel out of bounds: (2, 0)");
}
