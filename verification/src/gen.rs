use vstd::prelude::*;

use crate::geom::Point;
use crate::geom::WORLD_MAX;
use crate::geom::WORLD_MIN;
use crate::geom::dist_sq;
use crate::geom::lemma_dist_sq_symmetric;
use crate::geom::pt_in_bounds;
use crate::nearest::get_nearest_nodes;
use crate::nearest::lemma_nearest_empty;
use crate::nearest::within_ceiling;
use crate::world::MIN_SEPARATION;
use crate::world::Node;
use crate::world::SIZE_MAX;
use crate::world::SIZE_MIN;
use crate::world::node_wf;
use crate::world::separated;
use crate::world::wf_world;

verus! {

/// Most nodes a world can hold: the grid fallback below places nodes on a
/// 20 x 20 lattice with `MIN_SEPARATION` spacing, which exhausts the
/// generation square. Far beyond that count, rejection sampling could not
/// terminate at all.
pub const MAX_NODES: usize = 400;

/// Total draws the sampler may spend before generation falls back to the
/// deterministic layout. For feasible worlds the expected number of draws
/// is smaller by orders of magnitude, so the budget is never reached in
/// practice; it exists so that generation provably terminates.
pub const MAX_ATTEMPTS: u64 = 1000000;

/// Relies on rand::random_range over `lo..hi`: the draw is uniform over
/// the half-open range and always lies inside it. The range must be
/// non-empty, since rand panics on an empty one.
#[verifier::external_body]
fn sample_range(lo: i64, hi: i64) -> (r: i64)
    requires
        lo < hi,
    ensures
        lo <= r < hi,
{
    rand::random_range(lo..hi)
}

/// The node at slot `k` of the fallback lattice: column `k % 20`, row
/// `k / 20`, spaced `MIN_SEPARATION` apart, with a mid-range size.
spec fn grid_node(k: int) -> Node {
    Node {
        pos: Point {
            x: (WORLD_MIN + 100 * (k % 20)) as i64,
            y: (WORLD_MIN + 100 * (k / 20)) as i64,
        },
        size: 1000,
    }
}

proof fn lemma_grid_node_wf(k: int)
    requires
        0 <= k < 400,
    ensures
        node_wf(grid_node(k)),
{
    assert(0 <= k % 20 < 20 && 0 <= k / 20 < 20);
}

proof fn lemma_grid_separated(i: int, j: int)
    requires
        0 <= i < 400,
        0 <= j < 400,
        i != j,
    ensures
        dist_sq(grid_node(i).pos, grid_node(j).pos) >= MIN_SEPARATION * MIN_SEPARATION,
{
    let ci = i % 20;
    let ri = i / 20;
    let cj = j % 20;
    let rj = j / 20;
    assert(ci != cj || ri != rj);
    let dx = grid_node(i).pos.x - grid_node(j).pos.x;
    let dy = grid_node(i).pos.y - grid_node(j).pos.y;
    assert(dx == 100 * (ci - cj) && dy == 100 * (ri - rj));
    assert(dx * dx >= 0 && dy * dy >= 0) by (nonlinear_arith);
    if ci != cj {
        assert(dx * dx >= 10000) by (nonlinear_arith)
            requires
                dx == 100 * (ci - cj) && ci != cj,
        ;
    } else {
        assert(dy * dy >= 10000) by (nonlinear_arith)
            requires
                dy == 100 * (ri - rj) && ri != rj,
        ;
    }
}

/// The deterministic fallback world: the first `n` slots of the lattice.
fn grid_world(n: usize) -> (r: Vec<Node>)
    requires
        n <= MAX_NODES,
    ensures
        r@.len() == n,
        wf_world(r@),
{
    let mut nodes: Vec<Node> = Vec::new();
    let mut k: usize = 0;
    while k < n
        invariant
            k <= n,
            n <= 400,
            nodes@.len() == k,
            forall|t: int| 0 <= t < k ==> nodes@[t] == grid_node(t),
        decreases n - k,
    {
        let col = k % 20;
        let row = k / 20;
        let x = WORLD_MIN + 100 * (col as i64);
        let y = WORLD_MIN + 100 * (row as i64);
        nodes.push(Node::new(x, y, 1000));
        k += 1;
    }
    proof {
        assert forall|i: int, j: int|
            0 <= i < nodes@.len() && 0 <= j < nodes@.len() && i != j implies #[trigger] dist_sq(
            nodes@[i].pos,
            nodes@[j].pos,
        ) >= MIN_SEPARATION * MIN_SEPARATION by {
            lemma_grid_separated(i, j);
        }
        assert forall|i: int| 0 <= i < nodes@.len() implies node_wf(#[trigger] nodes@[i]) by {
            lemma_grid_node_wf(i);
        }
    }
    nodes
}

/// Produces exactly `n` nodes, each inside the generation square with a
/// size in the sampling range, and every pair at least `MIN_SEPARATION`
/// apart — by rejection sampling: draw a uniform candidate position,
/// ask the nearest-neighbor helper for any accepted node within the
/// minimum separation, and accept the candidate only when there is none.
/// Should the attempt budget ever run out, the deterministic lattice
/// stands in, so every call returns a world with the stated invariants.
pub fn gen_nodes(n: usize) -> (r: Vec<Node>)
    requires
        n <= MAX_NODES,
    ensures
        r@.len() == n,
        wf_world(r@),
{
    let mut nodes: Vec<Node> = Vec::new();
    let mut attempts: u64 = 0;
    while nodes.len() < n && attempts < MAX_ATTEMPTS
        invariant
            nodes@.len() <= n,
            wf_world(nodes@),
        decreases MAX_ATTEMPTS - attempts,
    {
        attempts += 1;
        let x = sample_range(WORLD_MIN, WORLD_MAX);
        let y = sample_range(WORLD_MIN, WORLD_MAX);
        proof {
            assert forall|i: int| 0 <= i < nodes@.len() implies pt_in_bounds(
                #[trigger] nodes@[i].pos,
            ) by {
                assert(node_wf(nodes@[i]));
            }
        }
        let near = get_nearest_nodes(x, y, &nodes, 1, MIN_SEPARATION);
        if near.len() == 0 {
            let size_draw = sample_range(SIZE_MIN as i64, SIZE_MAX as i64);
            let node = Node::new(x, y, size_draw as u32);
            let ghost old_nodes = nodes@;
            nodes.push(node);
            proof {
                let p = Point { x, y };
                lemma_nearest_empty(p, old_nodes, 1, MIN_SEPARATION, near@);
                assert forall|i: int, j: int|
                    0 <= i < nodes@.len() && 0 <= j < nodes@.len() && i != j implies #[trigger]
                dist_sq(nodes@[i].pos, nodes@[j].pos) >= MIN_SEPARATION * MIN_SEPARATION by {
                    if i < old_nodes.len() && j == old_nodes.len() {
                        assert(!within_ceiling(p, old_nodes[i], MIN_SEPARATION));
                        lemma_dist_sq_symmetric(nodes@[i].pos, p);
                    } else if i == old_nodes.len() && j < old_nodes.len() {
                        assert(!within_ceiling(p, old_nodes[j], MIN_SEPARATION));
                    }
                }
            }
        }
    }
    if nodes.len() == n {
        nodes
    } else {
        grid_world(n)
    }
}

} // verus!
