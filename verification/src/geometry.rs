//! Points and sizes on an area's tile grid.
use vstd::prelude::*;

verus! {

/// A tile position.
#[derive(Clone, Copy, Debug, PartialEq, Eq, Structural)]
pub struct Point {
    pub x: i32,
    pub y: i32,
}

/// A width and height in tiles.
#[derive(Clone, Copy, Debug, PartialEq, Eq, Structural)]
pub struct Size {
    pub width: i32,
    pub height: i32,
}

impl Point {
    pub fn new(x: i32, y: i32) -> (p: Point)
        ensures
            p.x == x,
            p.y == y,
    {
        Point { x, y }
    }

    /// Whether the point lies on a `width` by `height` grid.
    pub open spec fn spec_in_bounds(self, width: int, height: int) -> bool {
        0 <= self.x < width && 0 <= self.y < height
    }

    /// Whether the point lies on a `width` by `height` grid.
    pub fn in_bounds(&self, width: i32, height: i32) -> (r: bool)
        ensures
            r == self.spec_in_bounds(width as int, height as int),
    {
        self.x >= 0 && self.y >= 0 && self.x < width && self.y < height
    }
}

impl Size {
    pub fn new(width: i32, height: i32) -> (s: Size)
        ensures
            s.width == width,
            s.height == height,
    {
        Size { width, height }
    }
}

} // verus!
