use vstd::prelude::*;

verus! {

/// A point in screen or client coordinates.
#[derive(Clone, Copy, Debug, PartialEq, Eq, Structural)]
pub struct Point {
    pub x: i32,
    pub y: i32,
}

/// A rectangle given by its edges; `right` and `bottom` are exclusive.
#[derive(Clone, Copy, Debug, PartialEq, Eq, Structural)]
pub struct Rect {
    pub left: i32,
    pub top: i32,
    pub right: i32,
    pub bottom: i32,
}

pub open spec fn min_int(a: int, b: int) -> int {
    if a <= b { a } else { b }
}

pub open spec fn max_int(a: int, b: int) -> int {
    if a >= b { a } else { b }
}

pub open spec fn clamp_int(v: int, lo: int, hi: int) -> int {
    if v < lo { lo } else if v > hi { hi } else { v }
}

impl Rect {
    /// Width and height are both positive.
    pub open spec fn spec_is_nonempty(self) -> bool {
        self.right > self.left && self.bottom > self.top
    }

    pub open spec fn spec_contains(self, p: Point) -> bool {
        self.left <= p.x < self.right && self.top <= p.y < self.bottom
    }

    /// True when the rectangle has positive width and height.
    pub fn is_nonempty(&self) -> (b: bool)
        ensures
            b == self.spec_is_nonempty(),
    {
        self.right > self.left && self.bottom > self.top
    }

    /// Half-open hit test: the left and top edges belong to the rectangle,
    /// the right and bottom edges do not.
    pub fn contains(&self, p: Point) -> (b: bool)
        ensures
            b == self.spec_contains(p),
    {
        p.x >= self.left && p.x < self.right && p.y >= self.top && p.y < self.bottom
    }
}

/// The rectangle spanned by two corner points, whatever their order.
pub fn normalise(x1: i32, y1: i32, x2: i32, y2: i32) -> (r: Rect)
    ensures
        r.left == min_int(x1 as int, x2 as int),
        r.top == min_int(y1 as int, y2 as int),
        r.right == max_int(x1 as int, x2 as int),
        r.bottom == max_int(y1 as int, y2 as int),
{
    Rect {
        left: if x1 <= x2 { x1 } else { x2 },
        top: if y1 <= y2 { y1 } else { y2 },
        right: if x1 >= x2 { x1 } else { x2 },
        bottom: if y1 >= y2 { y1 } else { y2 },
    }
}

/// Clamps `v` into `[lo, hi]`; requires `lo <= hi` as `i32::clamp` does.
pub fn clamp_i32(v: i32, lo: i32, hi: i32) -> (r: i32)
    requires
        lo <= hi,
    ensures
        r == clamp_int(v as int, lo as int, hi as int),
{
    if v < lo { lo } else if v > hi { hi } else { v }
}

} // verus!
