//! A label beside the board that names a file or a rank.

use vstd::prelude::*;

verus! {

/// A label, where it is drawn, and whether it is centred between the rows
/// of its rectangle.
pub struct CoordinateField {
    pub content: String,
    pub x: u16,
    pub y: u16,
    pub height: u16,
    pub width: u16,
    pub align_vertical: bool,
}

impl CoordinateField {
    /// A label with the given text and place.
    pub fn new(content: String, x: u16, y: u16, height: u16, width: u16, align_vertical: bool) -> (field:
        Self)
        ensures
            field.content == content,
            field.x == x,
            field.y == y,
            field.height == height,
            field.width == width,
            field.align_vertical == align_vertical,
    {
        Self { content, x, y, height, width, align_vertical }
    }
}

} // verus!
