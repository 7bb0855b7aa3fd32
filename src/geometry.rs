//! Window-local pixel geometry.
use vstd::prelude::*;

verus! {

/// Smallest value of an `i32` coordinate.
pub const COORD_MIN: i64 = -2147483648;

/// Largest value of an `i32` coordinate.
pub const COORD_MAX: i64 = 2147483647;

/// Largest value of a `u32` extent.
pub const EXTENT_MAX: i64 = 4294967295;

/// A point in window-local pixel coordinates.
#[derive(Clone, Copy, Debug, PartialEq, Eq, Structural)]
pub struct Point {
    pub x: i32,
    pub y: i32,
}

/// An axis-aligned rectangle; `width` and `height` are never negative.
#[derive(Clone, Copy, Debug, PartialEq, Eq, Structural)]
pub struct Rect {
    pub x: i32,
    pub y: i32,
    pub width: u32,
    pub height: u32,
}

/// `v` limited to the range of an `i32` coordinate.
pub open spec fn clamp_coord(v: int) -> i32 {
    if v < COORD_MIN {
        i32::MIN
    } else if v > COORD_MAX {
        i32::MAX
    } else {
        v as i32
    }
}

/// `v` limited to the range of a `u32` extent.
pub open spec fn clamp_extent(v: int) -> u32 {
    if v < 0 {
        0
    } else if v > EXTENT_MAX {
        u32::MAX
    } else {
        v as u32
    }
}

/// Limits a wide coordinate to the range of an `i32`.
pub fn to_coord(v: i64) -> (r: i32)
    ensures
        r == clamp_coord(v as int),
{
    if v < COORD_MIN {
        i32::MIN
    } else if v > COORD_MAX {
        i32::MAX
    } else {
        v as i32
    }
}

/// Limits a wide length to the range of a `u32`.
pub fn to_extent(v: i64) -> (r: u32)
    ensures
        r == clamp_extent(v as int),
{
    if v < 0 {
        0
    } else if v > EXTENT_MAX {
        u32::MAX
    } else {
        v as u32
    }
}

impl Point {
    pub fn new(x: i32, y: i32) -> (r: Point)
        ensures
            r == (Point { x, y }),
    {
        Point { x, y }
    }
}

impl Rect {
    pub fn new(x: i32, y: i32, width: u32, height: u32) -> (r: Rect)
        ensures
            r == (Rect { x, y, width, height }),
    {
        Rect { x, y, width, height }
    }

    /// Whether the point `(px, py)` lies inside; the right and bottom edges
    /// are outside.
    pub open spec fn contains(self, px: int, py: int) -> bool {
        &&& self.x <= px
        &&& px < self.x + self.width
        &&& self.y <= py
        &&& py < self.y + self.height
    }

    pub fn contains_point(&self, p: Point) -> (r: bool)
        ensures
            r == self.contains(p.x as int, p.y as int),
    {
        let px = p.x as i64;
        let py = p.y as i64;
        let x = self.x as i64;
        let y = self.y as i64;
        x <= px && px < x + self.width as i64 && y <= py && py < y + self.height as i64
    }

    /// Whether the top-left or the bottom-left corner of `other` lies inside.
    pub open spec fn holds_a_left_corner(self, other: Rect) -> bool {
        self.contains(other.x as int, other.y as int) || self.contains(
            other.x as int,
            other.y + other.height,
        )
    }

    pub fn holds_left_corner_of(&self, other: &Rect) -> (r: bool)
        ensures
            r == self.holds_a_left_corner(*other),
    {
        let x = self.x as i64;
        let y = self.y as i64;
        let right = x + self.width as i64;
        let bottom = y + self.height as i64;
        let ox = other.x as i64;
        let top = other.y as i64;
        let low = other.y as i64 + other.height as i64;
        let in_x = x <= ox && ox < right;
        (in_x && y <= top && top < bottom) || (in_x && y <= low && low < bottom)
    }
}

} // verus!
