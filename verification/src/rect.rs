//! The room primitive: an axis-aligned rectangle given by its two corner
//! coordinate pairs, with a center point and an inclusive overlap test.

use vstd::prelude::*;

verus! {

/// An axis-aligned rectangle with `x1 < x2` and `y1 < y2` in its intended
/// use as a room; the operations below state their own bounds.
#[derive(Clone, Copy, PartialEq, Eq, Debug, Structural)]
pub struct Rect {
    pub x1: i32,
    pub y1: i32,
    pub x2: i32,
    pub y2: i32,
}

/// The center of a rectangle, with halves rounded down.
pub open spec fn center_spec(r: Rect) -> (int, int) {
    ((r.x1 + r.x2) / 2, (r.y1 + r.y2) / 2)
}

/// Whether two rectangles overlap, inclusively on both axes.
pub open spec fn intersect_spec(a: Rect, b: Rect) -> bool {
    a.x1 <= b.x2 && a.x2 >= b.x1 && a.y1 <= b.y2 && a.y2 >= b.y1
}

impl Rect {
    /// Builds the rectangle with corner `(x, y)`, width `w` and height `h`.
    pub fn new(x: i32, y: i32, w: i32, h: i32) -> (r: Rect)
        requires
            i32::MIN <= x + w <= i32::MAX,
            i32::MIN <= y + h <= i32::MAX,
        ensures
            r == (Rect { x1: x, y1: y, x2: (x + w) as i32, y2: (y + h) as i32 }),
    {
        Rect { x1: x, y1: y, x2: x + w, y2: y + h }
    }

    /// The center point of the rectangle.
    pub fn center(&self) -> (c: (i32, i32))
        requires
            0 <= self.x1,
            0 <= self.y1,
            self.x1 + self.x2 <= i32::MAX,
            self.y1 + self.y2 <= i32::MAX,
            self.x1 <= self.x2,
            self.y1 <= self.y2,
        ensures
            (c.0 as int, c.1 as int) == center_spec(*self),
    {
        ((self.x1 + self.x2) / 2, (self.y1 + self.y2) / 2)
    }

    /// Whether this rectangle overlaps `other`: true exactly when both
    /// coordinate-axis interval pairs overlap inclusively.
    pub fn intersect(&self, other: &Rect) -> (r: bool)
        ensures
            r == intersect_spec(*self, *other),
    {
        self.x1 <= other.x2 && self.x2 >= other.x1 && self.y1 <= other.y2 && self.y2 >= other.y1
    }
}

} // verus!
