//! Integer rectangles of the drawing surface.

use vstd::prelude::*;

verus! {

/// Integer division by two, rounding toward zero (as `i32` division does).
pub open spec fn half(v: int) -> int {
    if v >= 0 {
        v / 2
    } else {
        -((-v) / 2)
    }
}

/// A rectangle given by its edges.
#[derive(Debug, Clone, Copy)]
pub struct Rect {
    pub left: i32,
    pub top: i32,
    pub right: i32,
    pub bottom: i32,
}

impl Default for Rect {
    fn default() -> (r: Self)
        ensures
            r.left == 0 && r.top == 0 && r.right == 0 && r.bottom == 0,
    {
        Rect { left: 0, top: 0, right: 0, bottom: 0 }
    }
}

/// The value fits in an `i32`.
pub open spec fn fits_i32(v: int) -> bool {
    i32::MIN <= v <= i32::MAX
}

/// Half of a value, rounding toward zero.
fn half_i32(v: i32) -> (r: i32)
    ensures
        r == half(v as int),
{
    v / 2
}

impl Rect {
    /// A rectangle from its edges.
    pub fn new(left: i32, top: i32, right: i32, bottom: i32) -> (r: Self)
        ensures
            r.left == left && r.top == top && r.right == right && r.bottom == bottom,
    {
        Rect { left, top, right, bottom }
    }

    /// A rectangle from its top-left corner and its size.
    pub fn from(x: i32, y: i32, width: i32, height: i32) -> (r: Self)
        requires
            fits_i32(x + width),
            fits_i32(y + height),
        ensures
            r.left == x && r.top == y && r.right == x + width && r.bottom == y + height,
    {
        Rect { left: x, top: y, right: x + width, bottom: y + height }
    }

    /// Right edge minus left edge.
    pub fn width(&self) -> (r: i32)
        requires
            fits_i32(self.right - self.left),
        ensures
            r == self.right - self.left,
    {
        self.right - self.left
    }

    /// Bottom edge minus top edge.
    pub fn height(&self) -> (r: i32)
        requires
            fits_i32(self.bottom - self.top),
        ensures
            r == self.bottom - self.top,
    {
        self.bottom - self.top
    }

    /// Resizes the rectangle around its centre; each centre coordinate and
    /// each half size is rounded toward zero.
    pub fn set_size(&mut self, width: i32, height: i32)
        requires
            fits_i32(half(old(self).left + old(self).right) - half(width as int)),
            fits_i32(half(old(self).left + old(self).right) + half(width as int)),
            fits_i32(half(old(self).top + old(self).bottom) - half(height as int)),
            fits_i32(half(old(self).top + old(self).bottom) + half(height as int)),
            fits_i32(old(self).left + old(self).right),
            fits_i32(old(self).top + old(self).bottom),
        ensures
            final(self).left == half(old(self).left + old(self).right) - half(width as int),
            final(self).right == half(old(self).left + old(self).right) + half(width as int),
            final(self).top == half(old(self).top + old(self).bottom) - half(height as int),
            final(self).bottom == half(old(self).top + old(self).bottom) + half(height as int),
    {
        let cx = half_i32(self.left + self.right);
        let cy = half_i32(self.top + self.bottom);
        let hw = half_i32(width);
        let hh = half_i32(height);
        self.left = cx - hw;
        self.right = cx + hw;
        self.top = cy - hh;
        self.bottom = cy + hh;
    }
}

} // verus!
