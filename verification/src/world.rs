use vstd::prelude::*;

use crate::geom::Point;
use crate::geom::dist_sq;
use crate::geom::pt_in_bounds;

verus! {

/// Minimum Euclidean distance, in world units, between any two generated
/// nodes. Stated on squared distances throughout, which is equivalent.
pub const MIN_SEPARATION: u32 = 100;

/// Smallest node size, in thousandths of a world unit (inclusive).
pub const SIZE_MIN: u32 = 500;

/// Largest node size, in thousandths of a world unit (exclusive).
pub const SIZE_MAX: u32 = 1500;

/// A placed world object: a position inside the generation square and a
/// size. The size is kept in thousandths of a world unit, so the sampling
/// range `[SIZE_MIN, SIZE_MAX)` stands for sizes in `[0.5, 1.5)`.
#[derive(Copy, Clone, Debug, PartialEq, Eq, Structural)]
pub struct Node {
    pub pos: Point,
    pub size: u32,
}

impl Node {
    pub fn new(x: i64, y: i64, size: u32) -> (r: Node)
        ensures
            r == (Node { pos: Point { x, y }, size }),
    {
        Node { pos: Point { x, y }, size }
    }
}

/// A single node is well formed: it lies in the generation square and its
/// size lies in the sampling range.
pub open spec fn node_wf(n: Node) -> bool {
    &&& pt_in_bounds(n.pos)
    &&& SIZE_MIN <= n.size < SIZE_MAX
}

/// Every pair of distinct nodes is at least `MIN_SEPARATION` apart.
pub open spec fn separated(s: Seq<Node>) -> bool {
    forall|i: int, j: int|
        0 <= i < s.len() && 0 <= j < s.len() && i != j ==> #[trigger] dist_sq(
            s[i].pos,
            s[j].pos,
        ) >= MIN_SEPARATION * MIN_SEPARATION
}

/// A generated world is well formed: each node individually is, and the
/// minimum-separation invariant holds between every pair.
pub open spec fn wf_world(s: Seq<Node>) -> bool {
    &&& separated(s)
    &&& forall|i: int| 0 <= i < s.len() ==> node_wf(#[trigger] s[i])
}

} // verus!
