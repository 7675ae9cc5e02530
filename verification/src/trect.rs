use vstd::prelude::*;

verus! {

/// Half of `s`, rounded toward zero.
pub open spec fn half_toward_zero(s: int) -> int {
    if s >= 0 {
        s / 2
    } else {
        -((-s) / 2)
    }
}

/// An axis-aligned rectangle in tile coordinates, from the corner
/// `(x1, y1)` to the corner `(x2, y2)`.
#[derive(PartialEq, Eq, Structural, Clone, Copy, Debug)]
pub struct TRect {
    pub x1: i32,
    pub y1: i32,
    pub x2: i32,
    pub y2: i32,
}

impl TRect {
    /// The two corners are in order on both axes.
    pub open spec fn wf(&self) -> bool {
        self.x1 < self.x2 && self.y1 < self.y2
    }

    /// The two rectangles overlap or touch: their extents meet on both axes,
    /// boundaries included.
    pub open spec fn spec_intersects(&self, other: &TRect) -> bool {
        self.x1 <= other.x2 && self.x2 >= other.x1 && self.y1 <= other.y2 && self.y2 >= other.y1
    }

    /// The midpoint of the two corners, each coordinate rounded toward zero.
    pub open spec fn spec_center(&self) -> (int, int) {
        (half_toward_zero(self.x1 + self.x2), half_toward_zero(self.y1 + self.y2))
    }

    /// The tile `(x, y)` lies in the part of the rectangle that a room opens:
    /// right of `x1` up to `x2`, below `y1` up to `y2`.
    pub open spec fn interior_contains(&self, x: int, y: int) -> bool {
        self.x1 < x <= self.x2 && self.y1 < y <= self.y2
    }

    /// The rectangle with its top-left corner at `(x, y)`, `w` tiles wide and
    /// `h` tiles high.
    pub fn new(x: i32, y: i32, w: i32, h: i32) -> (r: TRect)
        requires
            i32::MIN <= x + w <= i32::MAX,
            i32::MIN <= y + h <= i32::MAX,
        ensures
            r.x1 == x,
            r.y1 == y,
            r.x2 == x + w,
            r.y2 == y + h,
            r.wf() <==> (w > 0 && h > 0),
    {
        TRect { x1: x, y1: y, x2: x + w, y2: y + h }
    }

    /// Whether the two rectangles overlap; rectangles that only touch count.
    pub fn intersects(&self, other: &TRect) -> (b: bool)
        ensures
            b == self.spec_intersects(other),
    {
        self.x1 <= other.x2 && self.x2 >= other.x1 && self.y1 <= other.y2 && self.y2 >= other.y1
    }

    /// The tile at the middle of the rectangle.
    pub fn center(&self) -> (c: (i32, i32))
        ensures
            (c.0 as int, c.1 as int) == self.spec_center(),
    {
        let sx: i64 = self.x1 as i64 + self.x2 as i64;
        let sy: i64 = self.y1 as i64 + self.y2 as i64;
        ((sx / 2) as i32, (sy / 2) as i32)
    }
}

} // verus!
