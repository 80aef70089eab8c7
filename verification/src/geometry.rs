//! Integer rectangles, as the image library lays them out: a top-left
//! corner and a size.

use vstd::prelude::*;

verus! {

/// A rectangle with integer coordinates: top-left corner `(x, y)`, then
/// width and height.
#[derive(Clone, Copy, Debug, PartialEq, Eq, Structural)]
pub struct IntRect {
    pub x: i32,
    pub y: i32,
    pub width: i32,
    pub height: i32,
}

impl IntRect {
    /// The rectangle lies within a canvas of `rows` by `cols` pixels.
    pub open spec fn inside(self, rows: int, cols: int) -> bool {
        &&& 0 <= self.x
        &&& 0 <= self.y
        &&& 0 <= self.width
        &&& 0 <= self.height
        &&& self.x + self.width <= cols
        &&& self.y + self.height <= rows
    }
}

} // verus!
