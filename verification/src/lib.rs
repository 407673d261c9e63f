//! In-place replication of one row or one column of pixels across a whole
//! raster image.
//!
//! The image type is `raster::Image`; its pixels are read and written through
//! the accessors of the `raster` crate, whose behaviour is stated in
//! [`codec`]. Everything else is verified against those statements.

pub mod codec;
pub mod error;
pub mod expand;
pub mod grid;
pub mod laws;
pub mod offset;

pub use error::ExpandError;
pub use expand::{expand_image_col, expand_image_pixels, expand_image_row};
pub use grid::is_well_formed;
pub use offset::Offset;
