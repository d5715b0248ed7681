use vstd::prelude::*;

verus! {

/// Lower bound (inclusive) of the generation square on both axes.
pub const WORLD_MIN: i64 = -1000;

/// Upper bound (exclusive) of the generation square on both axes.
pub const WORLD_MAX: i64 = 1000;

/// An integer 2D coordinate.
#[derive(Copy, Clone, Debug, PartialEq, Eq, Structural)]
pub struct Point {
    pub x: i64,
    pub y: i64,
}

/// The squared Euclidean distance between two points. Working with the
/// square avoids square roots while preserving every distance comparison,
/// since squaring is monotone on non-negative reals.
pub open spec fn dist_sq(a: Point, b: Point) -> int {
    (a.x - b.x) * (a.x - b.x) + (a.y - b.y) * (a.y - b.y)
}

/// A point lies inside the generation square.
pub open spec fn pt_in_bounds(p: Point) -> bool {
    WORLD_MIN <= p.x < WORLD_MAX && WORLD_MIN <= p.y < WORLD_MAX
}

pub proof fn lemma_dist_sq_symmetric(a: Point, b: Point)
    ensures
        dist_sq(a, b) == dist_sq(b, a),
{
    assert((a.x - b.x) * (a.x - b.x) == (b.x - a.x) * (b.x - a.x) && (a.y - b.y) * (a.y - b.y)
        == (b.y - a.y) * (b.y - a.y)) by (nonlinear_arith);
}

impl Point {
    /// The squared distance to another point, computed exactly in `i64`.
    /// Both points must lie in the generation square so that the
    /// intermediate products stay far below `i64::MAX`.
    pub fn dist_sq_to(self, other: Point) -> (r: i64)
        requires
            pt_in_bounds(self),
            pt_in_bounds(other),
        ensures
            r == dist_sq(self, other),
            0 <= r <= 8000000,
    {
        let dx = self.x - other.x;
        let dy = self.y - other.y;
        assert(0 <= dx * dx <= 4000000 && 0 <= dy * dy <= 4000000) by (nonlinear_arith)
            requires
                -2000 <= dx <= 2000 && -2000 <= dy <= 2000,
        ;
        dx * dx + dy * dy
    }
}

} // verus!
