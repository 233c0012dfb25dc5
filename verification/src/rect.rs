//! Rectangular regions of the character grid.

use vstd::prelude::*;

verus! {

/// A rectangle on the character grid, given by its top-left corner and its
/// size.  Columns grow to the right, rows grow downwards.  A rectangle is
/// well formed when it fits in the `u16` coordinate space, so that
/// `right()` and `bottom()` never overflow.
#[derive(Clone, Copy, PartialEq, Eq, Structural)]
pub struct Rect {
    pub x: u16,
    pub y: u16,
    pub width: u16,
    pub height: u16,
}

impl Rect {
    /// The rectangle fits in the `u16` coordinate space.
    pub open spec fn wf(self) -> bool {
        self.x + self.width <= u16::MAX && self.y + self.height <= u16::MAX
    }

    /// First column of the rectangle.
    pub open spec fn spec_left(self) -> int {
        self.x as int
    }

    /// One past the last column of the rectangle.
    pub open spec fn spec_right(self) -> int {
        self.x + self.width
    }

    /// First row of the rectangle.
    pub open spec fn spec_top(self) -> int {
        self.y as int
    }

    /// One past the last row of the rectangle.
    pub open spec fn spec_bottom(self) -> int {
        self.y + self.height
    }

    /// Column `x` and row `y` lie inside the rectangle.
    pub open spec fn spec_contains(self, x: int, y: int) -> bool {
        self.spec_left() <= x < self.spec_right() && self.spec_top() <= y < self.spec_bottom()
    }

    pub fn new(x: u16, y: u16, width: u16, height: u16) -> (r: Rect)
        requires
            x + width <= u16::MAX,
            y + height <= u16::MAX,
        ensures
            r == (Rect { x, y, width, height }),
            r.wf(),
    {
        Rect { x, y, width, height }
    }

    pub fn left(&self) -> (r: u16)
        ensures
            r == self.spec_left(),
    {
        self.x
    }

    pub fn right(&self) -> (r: u16)
        requires
            self.wf(),
        ensures
            r == self.spec_right(),
    {
        self.x + self.width
    }

    pub fn top(&self) -> (r: u16)
        ensures
            r == self.spec_top(),
    {
        self.y
    }

    pub fn bottom(&self) -> (r: u16)
        requires
            self.wf(),
        ensures
            r == self.spec_bottom(),
    {
        self.y + self.height
    }

    /// A copy of `self` moved so that it is centered inside `outer`
    /// (rounding towards the top-left corner).
    pub fn center_in(&self, outer: &Rect) -> (r: Rect)
        requires
            self.width <= outer.width,
            self.height <= outer.height,
            outer.wf(),
        ensures
            r.width == self.width,
            r.height == self.height,
            r.x == outer.x + (outer.width - self.width) / 2,
            r.y == outer.y + (outer.height - self.height) / 2,
            r.wf(),
            // the centered rectangle lies inside `outer`
            r.spec_left() >= outer.spec_left(),
            r.spec_top() >= outer.spec_top(),
            r.spec_right() <= outer.spec_right(),
            r.spec_bottom() <= outer.spec_bottom(),
    {
        Rect {
            x: outer.x + (outer.width - self.width) / 2,
            y: outer.y + (outer.height - self.height) / 2,
            width: self.width,
            height: self.height,
        }
    }

    /// Whether the position `(x, y)` lies inside the rectangle.
    pub fn contains(&self, pos: (u16, u16)) -> (r: bool)
        requires
            self.wf(),
        ensures
            r == self.spec_contains(pos.0 as int, pos.1 as int),
    {
        self.x <= pos.0 && pos.0 < self.x + self.width && self.y <= pos.1 && pos.1 < self.y
            + self.height
    }
}

} // verus!
