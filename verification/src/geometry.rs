//! Points, sizes and rectangles in integer screen coordinates.

use vstd::prelude::*;

verus! {

/// A position in a coordinate space.
#[derive(Clone, Copy, Debug, PartialEq, Eq, Structural)]
pub struct Point {
    pub x: i32,
    pub y: i32,
}

/// A width and a height.
#[derive(Clone, Copy, Debug, PartialEq, Eq, Structural)]
pub struct Size {
    pub width: u32,
    pub height: u32,
}

/// An axis-aligned rectangle: an origin (top left) and a size.
#[derive(Clone, Copy, Debug, PartialEq, Eq, Structural)]
pub struct Rectangle {
    pub origin: Point,
    pub size: Size,
}

impl Point {
    pub fn new(x: i32, y: i32) -> (p: Point)
        ensures
            p.x == x,
            p.y == y,
    {
        Point { x, y }
    }
}

impl Size {
    pub fn new(width: u32, height: u32) -> (s: Size)
        ensures
            s.width == width,
            s.height == height,
    {
        Size { width, height }
    }
}

impl Rectangle {
    pub open spec fn new_spec(x: i32, y: i32, width: u32, height: u32) -> Rectangle {
        Rectangle { origin: Point { x, y }, size: Size { width, height } }
    }

    pub fn new(x: i32, y: i32, width: u32, height: u32) -> (r: Rectangle)
        ensures
            r == Rectangle::new_spec(x, y, width, height),
    {
        Rectangle { origin: Point { x, y }, size: Size { width, height } }
    }

    /// The point lies in the rectangle: at or right of and below the origin,
    /// and strictly left of and above the far edges.
    pub open spec fn spec_contains(self, p: Point) -> bool {
        &&& self.origin.x <= p.x
        &&& p.x < self.origin.x + self.size.width
        &&& self.origin.y <= p.y
        &&& p.y < self.origin.y + self.size.height
    }

    pub fn contains(&self, p: &Point) -> (r: bool)
        ensures
            r == self.spec_contains(*p),
    {
        let px = p.x as i64;
        let py = p.y as i64;
        let ox = self.origin.x as i64;
        let oy = self.origin.y as i64;
        ox <= px && px < ox + self.size.width as i64 && oy <= py && py < oy + self.size.height as i64
    }

    /// The two rectangles share at least one point.
    pub open spec fn spec_intersects(self, other: Rectangle) -> bool {
        &&& self.origin.x < other.origin.x + other.size.width
        &&& other.origin.x < self.origin.x + self.size.width
        &&& self.origin.y < other.origin.y + other.size.height
        &&& other.origin.y < self.origin.y + self.size.height
    }

    pub fn intersects(&self, other: &Rectangle) -> (r: bool)
        ensures
            r == self.spec_intersects(*other),
    {
        let ax = self.origin.x as i64;
        let ay = self.origin.y as i64;
        let bx = other.origin.x as i64;
        let by = other.origin.y as i64;
        ax < bx + other.size.width as i64 && bx < ax + self.size.width as i64 && ay < by
            + other.size.height as i64 && by < ay + self.size.height as i64
    }

    pub fn width(&self) -> (w: u32)
        ensures
            w == self.size.width,
    {
        self.size.width
    }

    pub fn height(&self) -> (h: u32)
        ensures
            h == self.size.height,
    {
        self.size.height
    }
}

} // verus!
