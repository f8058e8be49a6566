//! Axis-aligned rectangle with a bounds-containment test.

use vstd::prelude::*;
use crate::common::XY;

verus! {

/// An axis-aligned rectangle: origin `(x, y)` plus a non-negative extent
/// `(w, h)`. It validates pixel positions against a drawing region before
/// any raw memory is touched.
#[derive(PartialEq, Eq, Debug, Clone, Copy, Hash, Structural)]
pub struct Rect {
    pub x: isize,
    pub y: isize,
    pub w: usize,
    pub h: usize,
}

impl Rect {
    /// True exactly when `pos` lies inside the rectangle.
    pub open spec fn spec_contains(self, pos: XY<isize>) -> bool {
        &&& self.x <= pos.x < self.x + self.w
        &&& self.y <= pos.y < self.y + self.h
    }

    pub fn new(x: isize, y: isize, w: usize, h: usize) -> (r: Self)
        ensures
            r == (Rect { x, y, w, h }),
    {
        Rect { x, y, w, h }
    }

    /// Bounds-containment test: `pos` is inside `self`.
    pub fn is_contained(self, pos: XY<isize>) -> (r: bool)
        ensures
            r == self.spec_contains(pos),
    {
        self.x <= pos.x
            && ((pos.x as i128) < (self.x as i128) + (self.w as i128))
            && self.y <= pos.y
            && ((pos.y as i128) < (self.y as i128) + (self.h as i128))
    }
}

} // verus!
