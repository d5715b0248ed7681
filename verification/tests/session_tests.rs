use node_world::Address;
use node_world::Game;
use node_world::Node;
use node_world::PersonalRequest;
use node_world::Request;
use node_world::Response;

fn dist_sq(a: &Node, b: &Node) -> i64 {
    let dx = a.pos.x - b.pos.x;
    let dy = a.pos.y - b.pos.y;
    dx * dx + dy * dy
}

fn assert_world_invariants(nodes: &[Node]) {
    for i in 0..nodes.len() {
        for j in 0..nodes.len() {
            if i != j {
                assert!(dist_sq(&nodes[i], &nodes[j]) >= 100 * 100);
            }
        }
        assert!(-1000 <= nodes[i].pos.x && nodes[i].pos.x < 1000);
        assert!(-1000 <= nodes[i].pos.y && nodes[i].pos.y < 1000);
    }
}

fn nodes_of(r: Response) -> Vec<Node> {
    let Response::GameState { nodes } = r;
    nodes
}

#[test]
fn new_game_holds_default_world() {
    let g = Game::new();
    assert_eq!(g.nodes.len(), 100);
    assert_world_invariants(&g.nodes);
}

#[test]
fn renew_replaces_world() {
    let mut g = Game::new();
    let before = g.nodes.clone();
    g.renew();
    assert_eq!(g.nodes.len(), 100);
    assert_world_invariants(&g.nodes);
    // Random placement makes a repeat of all hundred positions
    // overwhelmingly unlikely.
    assert_ne!(before, g.nodes);
}

#[test]
fn get_state_is_idempotent() {
    let mut g = Game::new();
    let req = PersonalRequest { player: 7, request: Request::GetState };
    let r1 = g.handle_request(&req);
    let r2 = g.handle_request(&req);
    assert_eq!(r1.whom, Address::Player(7));
    assert_eq!(r2.whom, Address::Player(7));
    assert_eq!(nodes_of(r1.response), nodes_of(r2.response));
}

#[test]
fn join_mirrors_query() {
    let mut g = Game::new();
    let join = g.handle_request(&PersonalRequest { player: 3, request: Request::NewPlayer });
    let query = g.handle_request(&PersonalRequest { player: 3, request: Request::GetState });
    assert_eq!(join.whom, Address::Player(3));
    assert_eq!(query.whom, Address::Player(3));
    assert_eq!(nodes_of(join.response), nodes_of(query.response));
}

#[test]
fn snapshot_matches_current_world() {
    let mut g = Game::new();
    let r = g.handle_request(&PersonalRequest { player: 1, request: Request::GetState });
    assert_eq!(nodes_of(r.response), g.nodes);
}

#[test]
fn restart_broadcasts_and_changes_state() {
    let mut g = Game::new();
    let before = nodes_of(
        g.handle_request(&PersonalRequest { player: 2, request: Request::GetState }).response,
    );
    let restart = g.handle_request(&PersonalRequest { player: 2, request: Request::Restart });
    assert_eq!(restart.whom, Address::All);
    let after = nodes_of(restart.response);
    assert_eq!(after, g.nodes);
    assert_eq!(after.len(), 100);
    assert_world_invariants(&after);
    // With overwhelming probability the regenerated world differs.
    assert_ne!(before, after);
    // A later query returns the new world.
    let query = g.handle_request(&PersonalRequest { player: 9, request: Request::GetState });
    assert_eq!(nodes_of(query.response), after);
}
