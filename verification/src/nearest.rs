use vstd::prelude::*;

use crate::geom::Point;
use crate::geom::dist_sq;
use crate::geom::pt_in_bounds;
use crate::world::Node;
use vstd::seq_lib::lemma_multiset_commutative;

verus! {

broadcast use vstd::seq_lib::group_to_multiset_ensures, vstd::multiset::group_multiset_axioms;

/// A node qualifies for a spatial query when the distance ceiling is
/// disabled (`dist == 0`) or the node lies strictly closer than the
/// ceiling. Distances are compared through their squares.
pub open spec fn within_ceiling(p: Point, nd: Node, dist: u32) -> bool {
    dist == 0 || dist_sq(p, nd.pos) < dist * dist
}

/// The nodes of `s` appear in non-decreasing order of distance to `p`.
pub open spec fn sorted_by_dist(p: Point, s: Seq<Node>) -> bool {
    forall|i: int, j: int|
        #![trigger dist_sq(p, s[i].pos), dist_sq(p, s[j].pos)]
        0 <= i <= j < s.len() ==> dist_sq(p, s[i].pos) <= dist_sq(p, s[j].pos)
}

/// The effective result cap: a requested count of zero means unbounded,
/// which a cap of the whole pool length expresses.
pub open spec fn effective_cap(n: usize, pool_len: nat) -> int {
    if n == 0 {
        pool_len as int
    } else {
        n as int
    }
}

/// What `get_nearest_nodes` returns for query point `p` over `pool`:
/// a selection `r` of pool entries, sorted by ascending distance to `p`,
/// all inside the distance ceiling, capped at the requested count, and
/// complete — an entry of the pool inside the ceiling can stay out of `r`
/// only when the cap was reached by entries that lie at least as close.
/// Entries at equal distance are interchangeable, so the selection is
/// pinned up to the order among ties.
pub open spec fn nearest_result(
    p: Point,
    pool: Seq<Node>,
    n: usize,
    dist: u32,
    r: Seq<Node>,
) -> bool {
    &&& r.to_multiset().subset_of(pool.to_multiset())
    &&& r.len() <= effective_cap(n, pool.len())
    &&& sorted_by_dist(p, r)
    &&& forall|i: int| 0 <= i < r.len() ==> within_ceiling(p, #[trigger] r[i], dist)
    &&& forall|nd: Node|
        #![trigger pool.to_multiset().count(nd)]
        pool.to_multiset().count(nd) > r.to_multiset().count(nd) && within_ceiling(p, nd, dist)
            ==> r.len() == effective_cap(n, pool.len())
    &&& forall|nd: Node, i: int|
        #![trigger pool.to_multiset().count(nd), dist_sq(p, r[i].pos)]
        pool.to_multiset().count(nd) > r.to_multiset().count(nd) && within_ceiling(p, nd, dist)
            && 0 <= i < r.len() ==> dist_sq(p, r[i].pos) <= dist_sq(p, nd.pos)
}

/// When at least one entry was requested and none came back, no entry of
/// the pool lies inside the ceiling.
pub proof fn lemma_nearest_empty(p: Point, pool: Seq<Node>, n: usize, dist: u32, r: Seq<Node>)
    requires
        nearest_result(p, pool, n, dist, r),
        n >= 1,
        r.len() == 0,
    ensures
        forall|i: int| 0 <= i < pool.len() ==> !within_ceiling(p, #[trigger] pool[i], dist),
{
    assert forall|i: int| 0 <= i < pool.len() implies !within_ceiling(p, #[trigger] pool[i], dist) by {
        if within_ceiling(p, pool[i], dist) {
            assert(pool.contains(pool[i]));
            assert(pool.to_multiset().count(pool[i]) > 0);
            assert(r.to_multiset().len() == 0);
            assert(r.to_multiset().count(pool[i]) == 0);
        }
    }
}

fn within_ceiling_exec(p: Point, nd: Node, dist: u32) -> (r: bool)
    requires
        pt_in_bounds(p),
        pt_in_bounds(nd.pos),
    ensures
        r == within_ceiling(p, nd, dist),
{
    if dist == 0 {
        true
    } else {
        let d2 = p.dist_sq_to(nd.pos);
        let dl = dist as u64;
        assert(dl * dl <= 0xffffffff * 0xffffffff) by (nonlinear_arith)
            requires
                0 <= dl <= 0xffffffff,
        ;
        (d2 as u64) < dl * dl
    }
}

/// A copy of `nodes`, sorted by ascending distance to `p` (insertion
/// sort). Sorting permutes the entries, so the multisets agree.
fn sort_nodes_by_dist(p: Point, nodes: &Vec<Node>) -> (r: Vec<Node>)
    requires
        pt_in_bounds(p),
        forall|i: int| 0 <= i < nodes@.len() ==> pt_in_bounds(#[trigger] nodes@[i].pos),
    ensures
        r@.to_multiset() == nodes@.to_multiset(),
        r@.len() == nodes@.len(),
        sorted_by_dist(p, r@),
        forall|i: int| 0 <= i < r@.len() ==> pt_in_bounds(#[trigger] r@[i].pos),
{
    let mut r: Vec<Node> = Vec::new();
    let mut i: usize = 0;
    while i < nodes.len()
        invariant
            pt_in_bounds(p),
            forall|k: int| 0 <= k < nodes@.len() ==> pt_in_bounds(#[trigger] nodes@[k].pos),
            i <= nodes@.len(),
            r@.len() == i,
            r@.to_multiset() == nodes@.take(i as int).to_multiset(),
            sorted_by_dist(p, r@),
            forall|k: int| 0 <= k < r@.len() ==> pt_in_bounds(#[trigger] r@[k].pos),
        decreases nodes@.len() - i,
    {
        let nd = nodes[i];
        let key = p.dist_sq_to(nd.pos);
        let mut j: usize = 0;
        while j < r.len()
            invariant
                pt_in_bounds(p),
                pt_in_bounds(nd.pos),
                key == dist_sq(p, nd.pos),
                j <= r@.len(),
                forall|k: int| 0 <= k < r@.len() ==> pt_in_bounds(#[trigger] r@[k].pos),
                forall|k: int| 0 <= k < j ==> dist_sq(p, #[trigger] r@[k].pos) <= key,
            ensures
                j <= r@.len(),
                j == r@.len() || dist_sq(p, r@[j as int].pos) > key,
            decreases r@.len() - j,
        {
            if p.dist_sq_to(r[j].pos) > key {
                break ;
            }
            j += 1;
        }
        let ghost old_r = r@;
        r.insert(j, nd);
        proof {
            old_r.insert_ensures(j as int, nd);
            assert(nodes@.take(i as int + 1) =~= nodes@.take(i as int).push(nd));
            assert forall|a: int, b: int|
                #![trigger dist_sq(p, r@[a].pos), dist_sq(p, r@[b].pos)]
                0 <= a <= b < r@.len() implies dist_sq(p, r@[a].pos) <= dist_sq(p, r@[b].pos) by {
                if b > j && a < j {
                    assert(dist_sq(p, old_r[a].pos) <= key);
                    assert(dist_sq(p, old_r[j as int].pos) > key);
                }
            }
        }
        i += 1;
    }
    proof {
        assert(nodes@.take(nodes@.len() as int) =~= nodes@);
    }
    r
}

/// The nearest-neighbor helper: the entries of `nodes` that lie within
/// `dist` of the query point `(x, y)`, sorted by ascending distance,
/// capped at `n` entries. A count of zero means "return all matches";
/// a distance of zero means "ignore the ceiling". All coordinates must
/// lie in the generation square, which keeps the squared distances exact
/// in `i64`.
pub fn get_nearest_nodes(x: i64, y: i64, nodes: &Vec<Node>, n: usize, dist: u32) -> (r: Vec<
    Node,
>)
    requires
        pt_in_bounds(Point { x, y }),
        forall|i: int| 0 <= i < nodes@.len() ==> pt_in_bounds(#[trigger] nodes@[i].pos),
    ensures
        nearest_result(Point { x, y }, nodes@, n, dist, r@),
{
    let p = Point { x, y };
    let source = sort_nodes_by_dist(p, nodes);
    let cap: usize = if n == 0 {
        nodes.len()
    } else {
        n
    };
    let mut res: Vec<Node> = Vec::new();
    let mut i: usize = 0;
    while i < source.len()
        invariant
            pt_in_bounds(p),
            forall|k: int| 0 <= k < source@.len() ==> pt_in_bounds(#[trigger] source@[k].pos),
            sorted_by_dist(p, source@),
            i <= source@.len(),
            i <= cap,
            res@ == source@.take(i as int),
            forall|k: int| 0 <= k < i ==> within_ceiling(p, #[trigger] source@[k], dist),
        ensures
            i <= source@.len(),
            i <= cap,
            res@ == source@.take(i as int),
            forall|k: int| 0 <= k < i ==> within_ceiling(p, #[trigger] source@[k], dist),
            i == source@.len() || i == cap || !within_ceiling(p, source@[i as int], dist),
        decreases source@.len() - i,
    {
        if i >= cap {
            break ;
        }
        let nd = source[i];
        if !within_ceiling_exec(p, nd, dist) {
            break ;
        }
        res.push(nd);
        proof {
            assert(source@.take(i as int + 1) =~= source@.take(i as int).push(nd));
        }
        i += 1;
    }
    proof {
        let pool = nodes@;
        let src = source@;
        let k = i as int;
        assert(src =~= src.take(k) + src.skip(k));
        lemma_multiset_commutative(src.take(k), src.skip(k));
        assert forall|nd: Node|
            pool.to_multiset().count(nd) > res@.to_multiset().count(nd) && within_ceiling(
                p,
                nd,
                dist,
            ) implies res@.len() == effective_cap(n, pool.len()) && (forall|t: int|
            0 <= t < res@.len() ==> dist_sq(p, #[trigger] res@[t].pos) <= dist_sq(
                p,
                nd.pos,
            )) by {
            assert(src.to_multiset().count(nd) == src.take(k).to_multiset().count(nd)
                + src.skip(k).to_multiset().count(nd));
            assert(src.skip(k).to_multiset().count(nd) > 0);
            assert(src.skip(k).contains(nd));
            let w = choose|w: int| 0 <= w < src.skip(k).len() && src.skip(k)[w] == nd;
            assert(src[k + w] == nd);
            assert(k < src.len());
            assert(within_ceiling(p, src[k + w], dist));
            if !within_ceiling(p, src[k], dist) {
                assert(dist_sq(p, src[k].pos) <= dist_sq(p, src[k + w].pos));
                assert(false);
            }
            assert(i == cap);
            assert forall|t: int| 0 <= t < res@.len() implies dist_sq(p, #[trigger] res@[t].pos)
                <= dist_sq(p, nd.pos) by {
                assert(res@[t] == src[t]);
                assert(dist_sq(p, src[t].pos) <= dist_sq(p, src[k + w].pos));
            }
        }
    }
    res
}

} // verus!
