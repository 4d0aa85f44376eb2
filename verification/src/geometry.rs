//! Axis-aligned rectangles in pixel coordinates.

use vstd::prelude::*;

verus! {

/// A rectangle with its top-left corner at `(x, y)`.
#[derive(Clone, Copy, Debug, PartialEq, Eq, Structural)]
pub struct Rect {
    pub x: i32,
    pub y: i32,
    pub width: i32,
    pub height: i32,
}

impl Rect {
    /// Whether the two rectangles share at least one point of the plane.
    pub open spec fn overlaps(self, other: Rect) -> bool {
        &&& self.x < other.x + other.width
        &&& other.x < self.x + self.width
        &&& self.y < other.y + other.height
        &&& other.y < self.y + self.height
    }

    /// Whether the pixel `(px, py)` lies inside the rectangle.
    pub open spec fn covers(self, px: int, py: int) -> bool {
        &&& self.x <= px < self.x + self.width
        &&& self.y <= py < self.y + self.height
    }

    pub fn new(x: i32, y: i32, width: i32, height: i32) -> (r: Rect)
        ensures
            r == (Rect { x, y, width, height }),
    {
        Rect { x, y, width, height }
    }

    /// The one-pixel rectangle that stands for the point `(x, y)`.
    pub fn point(x: i32, y: i32) -> (r: Rect)
        ensures
            r == (Rect { x, y, width: 1, height: 1 }),
    {
        Rect { x, y, width: 1, height: 1 }
    }

    /// Axis-aligned overlap test.
    pub fn intersects(&self, other: Rect) -> (hit: bool)
        ensures
            hit == self.overlaps(other),
    {
        (self.x as i64) < (other.x as i64) + (other.width as i64) && (other.x as i64) < (
        self.x as i64) + (self.width as i64) && (self.y as i64) < (other.y as i64) + (
        other.height as i64) && (other.y as i64) < (self.y as i64) + (self.height as i64)
    }
}

impl Default for Rect {
    fn default() -> (r: Rect)
        ensures
            r == (Rect { x: 0, y: 0, width: 0, height: 0 }),
    {
        Rect { x: 0, y: 0, width: 0, height: 0 }
    }
}

} // verus!
