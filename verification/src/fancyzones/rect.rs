//! Rectangles and points in screen coordinates.

use vstd::prelude::*;

verus! {

/// A rectangle: left/top inclusive, right/bottom exclusive.
#[derive(Debug, Clone, Copy, PartialEq, Eq, Structural, Hash)]
pub struct Rect {
    pub left: i32,
    pub top: i32,
    pub right: i32,
    pub bottom: i32,
}

/// The extent `hi - lo` if positive, else zero.
pub open spec fn extent(lo: i32, hi: i32) -> int {
    if hi - lo > 0 {
        hi - lo
    } else {
        0
    }
}

impl Rect {
    pub open spec fn spec_area(self) -> int {
        extent(self.left, self.right) * extent(self.top, self.bottom)
    }

    pub open spec fn spec_contains(self, x: int, y: int) -> bool {
        self.left <= x < self.right && self.top <= y < self.bottom
    }

    pub fn new(left: i32, top: i32, right: i32, bottom: i32) -> (r: Self)
        ensures
            r == (Rect { left, top, right, bottom }),
    {
        Rect { left, top, right, bottom }
    }

    pub fn width(&self) -> (w: i32)
        requires
            i32::MIN <= self.right - self.left <= i32::MAX,
        ensures
            w == self.right - self.left,
    {
        self.right - self.left
    }

    pub fn height(&self) -> (h: i32)
        requires
            i32::MIN <= self.bottom - self.top <= i32::MAX,
        ensures
            h == self.bottom - self.top,
    {
        self.bottom - self.top
    }

    /// The area, counting a negative width or height as zero.
    pub fn area(&self) -> (a: i64)
        requires
            self.spec_area() <= i64::MAX,
        ensures
            a == self.spec_area(),
    {
        let w: i64 = if (self.right as i64) - (self.left as i64) > 0 {
            (self.right as i64) - (self.left as i64)
        } else {
            0
        };
        let h: i64 = if (self.bottom as i64) - (self.top as i64) > 0 {
            (self.bottom as i64) - (self.top as i64)
        } else {
            0
        };
        assert(0 <= w * h) by (nonlinear_arith)
            requires
                0 <= w,
                0 <= h,
        ;
        w * h
    }

    pub fn contains_point(&self, x: i32, y: i32) -> (b: bool)
        ensures
            b == self.spec_contains(x as int, y as int),
    {
        self.left <= x && x < self.right && self.top <= y && y < self.bottom
    }
}

impl Default for Rect {
    fn default() -> (r: Self)
        ensures
            r == (Rect { left: 0, top: 0, right: 0, bottom: 0 }),
    {
        Rect { left: 0, top: 0, right: 0, bottom: 0 }
    }
}

/// A point in screen coordinates.
#[derive(Debug, Clone, Copy, PartialEq, Eq, Structural, Hash)]
pub struct Point {
    pub x: i32,
    pub y: i32,
}

impl Point {
    pub fn new(x: i32, y: i32) -> (p: Self)
        ensures
            p == (Point { x, y }),
    {
        Point { x, y }
    }
}

impl Default for Point {
    fn default() -> (p: Self)
        ensures
            p == (Point { x: 0, y: 0 }),
    {
        Point { x: 0, y: 0 }
    }
}

} // verus!
