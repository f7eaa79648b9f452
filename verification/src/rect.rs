use vstd::prelude::*;

verus! {

/// An axis-aligned rectangle on the grid, given by two opposite corners.
///
/// A room occupies the tiles strictly between the corners; the corner rows
/// and columns themselves are its walls.
#[derive(Clone, Copy, Debug, PartialEq, Eq, Structural)]
pub struct Rect {
    pub x1: i32,
    pub y1: i32,
    pub x2: i32,
    pub y2: i32,
}

/// The midpoint of `a` and `b`, rounded towards negative infinity.
pub open spec fn midpoint(a: int, b: int) -> int {
    (a + b) / 2
}

/// Executable form of [`midpoint`].
fn mid(a: i32, b: i32) -> (m: i32)
    ensures
        m == midpoint(a as int, b as int),
{
    let s: i64 = a as i64 + b as i64;
    if s >= 0 {
        (s / 2) as i32
    } else {
        let t: i64 = (1 - s) / 2;
        (-t) as i32
    }
}

impl Rect {
    /// The rectangle with top-left corner `(x, y)`, `w` tiles wide and `h` tiles high.
    pub fn new(x: i32, y: i32, w: i32, h: i32) -> (r: Rect)
        requires
            i32::MIN <= x + w <= i32::MAX,
            i32::MIN <= y + h <= i32::MAX,
        ensures
            r == (Rect { x1: x, y1: y, x2: (x + w) as i32, y2: (y + h) as i32 }),
    {
        Rect { x1: x, y1: y, x2: x + w, y2: y + h }
    }

    /// The centre tile as a pair of mathematical integers.
    pub open spec fn spec_center(self) -> (int, int) {
        (midpoint(self.x1 as int, self.x2 as int), midpoint(self.y1 as int, self.y2 as int))
    }

    /// Whether the two rectangles share a tile, borders included: rectangles
    /// that merely touch along an edge count as intersecting.
    pub open spec fn intersects(self, other: Rect) -> bool {
        &&& self.x1 <= other.x2
        &&& self.x2 >= other.x1
        &&& self.y1 <= other.y2
        &&& self.y2 >= other.y1
    }

    /// Whether `(x, y)` lies strictly inside the rectangle.
    pub open spec fn encloses(self, x: int, y: int) -> bool {
        self.x1 < x < self.x2 && self.y1 < y < self.y2
    }

    /// The centre tile: the integer midpoint of the corners on each axis.
    pub fn center(&self) -> (c: (i32, i32))
        ensures
            (c.0 as int, c.1 as int) == self.spec_center(),
    {
        (mid(self.x1, self.x2), mid(self.y1, self.y2))
    }

    /// Tests the two rectangles for overlap, borders included.
    pub fn intersects_with(&self, other: &Rect) -> (b: bool)
        ensures
            b == self.intersects(*other),
    {
        self.x1 <= other.x2 && self.x2 >= other.x1 && self.y1 <= other.y2 && self.y2 >= other.y1
    }
}

} // verus!
