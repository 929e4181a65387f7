//! The rectangle of cells that a board covers.

use vstd::prelude::*;

verus! {

#[derive(Debug)]
pub struct Border {
    pub width: u32,
    pub height: u32,
}

impl Border {
    pub fn new(width: u32, height: u32) -> (r: Self)
        ensures
            r.width == width,
            r.height == height,
    {
        Self { width, height }
    }

    /// Whether the cell `(x, y)` lies on the board.
    pub fn is_inside(&self, x: i32, y: i32) -> (r: bool)
        ensures
            r == (0 <= x < self.width && 0 <= y < self.height),
    {
        x >= 0 && y >= 0 && (x as u32) < self.width && (y as u32) < self.height
    }
}

} // verus!
