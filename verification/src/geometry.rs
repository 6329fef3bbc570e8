//! Points, distances and axis-aligned boxes on the fixed-point grid.

use vstd::prelude::*;

verus! {

/// A position or an offset on the grid.
#[derive(Clone, Copy, Debug, PartialEq, Eq, Structural)]
pub struct Point {
    pub x: i32,
    pub y: i32,
}

/// The square of the Euclidean distance between `a` and `b`.
pub open spec fn dist_sq(a: Point, b: Point) -> int {
    (a.x - b.x) * (a.x - b.x) + (a.y - b.y) * (a.y - b.y)
}

/// `a` and `b` lie at most `radius` apart. No point lies within a negative
/// radius.
pub open spec fn within(a: Point, b: Point, radius: int) -> bool {
    radius >= 0 && dist_sq(a, b) <= radius * radius
}

/// `a` and `b` lie more than `gap` apart. Every point lies farther away than
/// a negative gap.
pub open spec fn farther_than(a: Point, b: Point, gap: int) -> bool {
    gap < 0 || dist_sq(a, b) > gap * gap
}

/// The integer nearest to `v` that an `i32` holds.
pub open spec fn clamp_i32(v: int) -> int {
    if v < i32::MIN {
        i32::MIN as int
    } else if v > i32::MAX {
        i32::MAX as int
    } else {
        v
    }
}

/// Brings `v` into the range of `i32`.
pub fn saturate(v: i128) -> (r: i32)
    ensures
        r == clamp_i32(v as int),
{
    if v < i32::MIN as i128 {
        i32::MIN
    } else if v > i32::MAX as i128 {
        i32::MAX
    } else {
        v as i32
    }
}

proof fn lemma_square_bound(d: int)
    by (nonlinear_arith)
    requires
        -0x1_0000_0000 < d < 0x1_0000_0000,
    ensures
        0 <= d * d < 0x1_0000_0000_0000_0000,
{
}

impl Point {
    /// The origin of the grid.
    pub open spec fn origin() -> Point {
        Point { x: 0, y: 0 }
    }

    pub fn new(x: i32, y: i32) -> (p: Point)
        ensures
            p == (Point { x, y }),
    {
        Point { x, y }
    }

    /// The point with both coordinates zero.
    pub fn zero() -> (p: Point)
        ensures
            p == Point::origin(),
    {
        Point { x: 0, y: 0 }
    }

    /// The square of the distance to `other`.
    pub fn distance_squared(&self, other: &Point) -> (d: u128)
        ensures
            d == dist_sq(*self, *other),
    {
        let dx: i128 = self.x as i128 - other.x as i128;
        let dy: i128 = self.y as i128 - other.y as i128;
        proof {
            lemma_square_bound(dx as int);
            lemma_square_bound(dy as int);
        }
        let sx: i128 = dx * dx;
        let sy: i128 = dy * dy;
        (sx + sy) as u128
    }

    /// Whether `other` lies at most `radius` away.
    pub fn is_within(&self, other: &Point, radius: i32) -> (b: bool)
        ensures
            b == within(*self, *other, radius as int),
    {
        if radius < 0 {
            return false;
        }
        let r: u128 = radius as u128;
        proof {
            lemma_square_bound(radius as int);
        }
        self.distance_squared(other) <= r * r
    }

    /// Whether `other` lies more than `gap` away.
    pub fn is_farther_than(&self, other: &Point, gap: i32) -> (b: bool)
        ensures
            b == farther_than(*self, *other, gap as int),
    {
        if gap < 0 {
            return true;
        }
        let g: u128 = gap as u128;
        proof {
            lemma_square_bound(gap as int);
        }
        self.distance_squared(other) > g * g
    }
}

/// An axis-aligned box, given by its centre and by half of its width and
/// height. A box with a negative half extent holds no point.
#[derive(Clone, Copy, Debug, PartialEq, Eq, Structural)]
pub struct Aabb {
    pub center: Point,
    pub half_extents: Point,
}

/// How far apart `a` and `b` are on one axis.
pub open spec fn axis_gap(a: int, b: int) -> int {
    if a >= b {
        a - b
    } else {
        b - a
    }
}

impl Aabb {
    /// `point` lies in the box, its border included.
    pub open spec fn holds(self, point: Point) -> bool {
        &&& axis_gap(self.center.x as int, point.x as int) <= self.half_extents.x
        &&& axis_gap(self.center.y as int, point.y as int) <= self.half_extents.y
    }

    pub fn new(center: Point, half_extents: Point) -> (b: Aabb)
        ensures
            b == (Aabb { center, half_extents }),
    {
        Aabb { center, half_extents }
    }

    /// Whether `point` lies in the box, its border included.
    pub fn contains(&self, point: &Point) -> (b: bool)
        ensures
            b == self.holds(*point),
    {
        let dx: i64 = self.center.x as i64 - point.x as i64;
        let dy: i64 = self.center.y as i64 - point.y as i64;
        let ax: i64 = if dx >= 0 { dx } else { -dx };
        let ay: i64 = if dy >= 0 { dy } else { -dy };
        ax <= self.half_extents.x as i64 && ay <= self.half_extents.y as i64
    }
}

} // verus!
