use node_world::Node;
use node_world::gen_nodes;

fn dist_sq(a: &Node, b: &Node) -> i64 {
    let dx = a.pos.x - b.pos.x;
    let dy = a.pos.y - b.pos.y;
    dx * dx + dy * dy
}

#[test]
fn gen_zero_nodes_is_empty() {
    let world = gen_nodes(0);
    assert_eq!(world.len(), 0);
}

#[test]
fn gen_returns_exact_count() {
    for n in [1usize, 2, 5, 40] {
        let world = gen_nodes(n);
        assert_eq!(world.len(), n);
    }
}

#[test]
fn gen_min_separation_holds() {
    let world = gen_nodes(40);
    for i in 0..world.len() {
        for j in 0..world.len() {
            if i != j {
                assert!(dist_sq(&world[i], &world[j]) >= 100 * 100);
            }
        }
    }
}

#[test]
fn gen_nodes_lie_in_bounds() {
    let world = gen_nodes(40);
    for node in &world {
        assert!(-1000 <= node.pos.x && node.pos.x < 1000);
        assert!(-1000 <= node.pos.y && node.pos.y < 1000);
        assert!(500 <= node.size && node.size < 1500);
    }
}

#[test]
fn gen_draws_vary() {
    // A sampler handing back a constant would collapse every candidate
    // onto one position; forty accepted nodes need forty distinct ones.
    let world = gen_nodes(40);
    for i in 0..world.len() {
        for j in 0..world.len() {
            if i != j {
                assert!(world[i].pos.x != world[j].pos.x || world[i].pos.y != world[j].pos.y);
            }
        }
    }
}
