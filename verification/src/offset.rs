//! The line of pixels that is to be replicated.

use vstd::prelude::*;
use crate::error::ExpandError;

verus! {

/// A source line: the row or the column with the given coordinate.
#[derive(Clone, Copy, Debug, PartialEq, Eq, Structural)]
pub enum Offset {
    Row(u32),
    Col(u32),
}

impl Offset {
    /// The offset that a coordinate and an orientation flag stand for: a row
    /// where `row` is set, a column otherwise.
    pub fn new(pixel: u32, row: bool) -> (offset: Offset)
        ensures
            offset == (if row {
                Offset::Row(pixel)
            } else {
                Offset::Col(pixel)
            }),
    {
        if row {
            Offset::Row(pixel)
        } else {
            Offset::Col(pixel)
        }
    }

    /// Whether the line exists in an image of the given dimensions.
    pub open spec fn within(self, width: int, height: int) -> bool {
        match self {
            Offset::Row(y) => y < height,
            Offset::Col(x) => x < width,
        }
    }

    /// The error that is reported for this line when it does not exist.
    pub open spec fn rejection(self) -> ExpandError {
        match self {
            Offset::Row(y) => ExpandError::OutOfBounds { x: 0, y },
            Offset::Col(x) => ExpandError::OutOfBounds { x, y: 0 },
        }
    }
}

} // verus!
