use node_world::Node;
use node_world::get_nearest_nodes;

fn pool() -> Vec<Node> {
    // Distances to the query point (0, 0): 0, 10, 20, ~141.4, ~707.1.
    vec![
        Node::new(500, 500, 600),
        Node::new(0, 20, 700),
        Node::new(0, 0, 800),
        Node::new(100, 100, 900),
        Node::new(10, 0, 1000),
    ]
}

fn dist_sq_to(x: i64, y: i64, n: &Node) -> i64 {
    let dx = x - n.pos.x;
    let dy = y - n.pos.y;
    dx * dx + dy * dy
}

#[test]
fn nearest_sorted_by_ascending_distance() {
    let r = get_nearest_nodes(0, 0, &pool(), 0, 0);
    assert_eq!(r.len(), 5);
    for w in r.windows(2) {
        assert!(dist_sq_to(0, 0, &w[0]) <= dist_sq_to(0, 0, &w[1]));
    }
}

#[test]
fn nearest_zero_cap_and_zero_ceiling_return_all() {
    let r = get_nearest_nodes(0, 0, &pool(), 0, 0);
    assert_eq!(
        r,
        vec![
            Node::new(0, 0, 800),
            Node::new(10, 0, 1000),
            Node::new(0, 20, 700),
            Node::new(100, 100, 900),
            Node::new(500, 500, 600),
        ]
    );
}

#[test]
fn nearest_respects_count_cap() {
    let r = get_nearest_nodes(0, 0, &pool(), 2, 0);
    assert_eq!(r, vec![Node::new(0, 0, 800), Node::new(10, 0, 1000)]);
}

#[test]
fn nearest_respects_distance_ceiling() {
    let r = get_nearest_nodes(0, 0, &pool(), 0, 50);
    assert_eq!(
        r,
        vec![Node::new(0, 0, 800), Node::new(10, 0, 1000), Node::new(0, 20, 700)]
    );
}

#[test]
fn nearest_ceiling_is_strict() {
    // The node at (10, 0) lies at distance exactly 10; a ceiling of 10
    // excludes it, one of 11 includes it.
    let r = get_nearest_nodes(0, 0, &pool(), 0, 10);
    assert_eq!(r, vec![Node::new(0, 0, 800)]);
    let r = get_nearest_nodes(0, 0, &pool(), 0, 11);
    assert_eq!(r, vec![Node::new(0, 0, 800), Node::new(10, 0, 1000)]);
}

#[test]
fn nearest_cap_and_ceiling_together() {
    let r = get_nearest_nodes(0, 0, &pool(), 1, 50);
    assert_eq!(r, vec![Node::new(0, 0, 800)]);
}

#[test]
fn nearest_cap_larger_than_matches() {
    let r = get_nearest_nodes(0, 0, &pool(), 4, 25);
    assert_eq!(
        r,
        vec![Node::new(0, 0, 800), Node::new(10, 0, 1000), Node::new(0, 20, 700)]
    );
}

#[test]
fn nearest_empty_pool() {
    let r = get_nearest_nodes(0, 0, &Vec::new(), 1, 100);
    assert_eq!(r.len(), 0);
}

#[test]
fn nearest_none_within_ceiling() {
    let r = get_nearest_nodes(-900, -900, &pool(), 1, 100);
    assert_eq!(r.len(), 0);
}
