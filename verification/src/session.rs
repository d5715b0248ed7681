use vstd::prelude::*;

use crate::gen::gen_nodes;
use crate::world::Node;
use crate::world::wf_world;

verus! {

/// Number of nodes in a freshly generated world.
pub const DEFAULT_NODE_COUNT: usize = 100;

/// Opaque player identifier, supplied by the transport with every
/// request; the session never allocates or validates one.
pub type PlayerId = usize;

/// The closed set of request kinds a player can send. None carries a
/// payload.
#[derive(Clone, Debug, PartialEq, Eq)]
pub enum Request {
    NewPlayer,
    GetState,
    Restart,
}

/// One inbound request together with the player it came from.
#[derive(Clone, Debug)]
pub struct PersonalRequest {
    pub player: PlayerId,
    pub request: Request,
}

/// The one response kind: a full snapshot of the current node list.
#[derive(Clone, Debug, PartialEq)]
pub enum Response {
    GameState { nodes: Vec<Node> },
}

impl Response {
    /// The node list the snapshot carries.
    pub open spec fn nodes_seq(self) -> Seq<Node> {
        match self {
            Response::GameState { nodes } => nodes@,
        }
    }
}

/// The delivery target of a response: one player, an explicit set of
/// players, or everyone. The session never resolves `All` into a player
/// list; that is the transport's job.
#[derive(Clone, Debug, PartialEq)]
pub enum Address {
    Player(PlayerId),
    SomePlayers(Vec<PlayerId>),
    All,
}

/// One outbound response together with its delivery target.
#[derive(Clone, Debug)]
pub struct AddressResponse {
    pub whom: Address,
    pub response: Response,
}

/// The session's whole state: the current world, an ordered node list
/// that is replaced wholesale on restart and never mutated element-wise.
#[derive(Clone, Debug)]
pub struct Game {
    pub nodes: Vec<Node>,
}

/// The invariant the session maintains between requests: the world is
/// well formed and holds the fixed node count.
pub open spec fn game_wf(g: Game) -> bool {
    &&& wf_world(g.nodes@)
    &&& g.nodes@.len() == DEFAULT_NODE_COUNT
}

/// What answering a snapshot request means: the world is untouched and
/// the requesting player alone receives the current node list. Joining
/// and querying both answer this way.
pub open spec fn snapshot_reply(pre: Game, post: Game, player: PlayerId, r: AddressResponse) -> bool {
    &&& post == pre
    &&& r.whom == Address::Player(player)
    &&& r.response.nodes_seq() == pre.nodes@
}

/// What answering a restart means: the world is regenerated with the
/// session invariant re-established, and everyone receives a snapshot of
/// the new node list.
pub open spec fn restart_reply(post: Game, r: AddressResponse) -> bool {
    &&& game_wf(post)
    &&& r.whom == Address::All
    &&& r.response.nodes_seq() == post.nodes@
}

/// A copy of the node list, for building a snapshot response.
fn clone_nodes(nodes: &Vec<Node>) -> (r: Vec<Node>)
    ensures
        r@ == nodes@,
{
    let mut r: Vec<Node> = Vec::new();
    let mut i: usize = 0;
    while i < nodes.len()
        invariant
            i <= nodes@.len(),
            r@ == nodes@.take(i as int),
        decreases nodes@.len() - i,
    {
        r.push(nodes[i]);
        proof {
            assert(nodes@.take(i as int + 1) =~= nodes@.take(i as int).push(nodes@[i as int]));
        }
        i += 1;
    }
    proof {
        assert(nodes@.take(nodes@.len() as int) =~= nodes@);
    }
    r
}

impl Game {
    /// A fresh session state with a newly generated world.
    pub fn new() -> (g: Game)
        ensures
            game_wf(g),
    {
        Game { nodes: gen_nodes(DEFAULT_NODE_COUNT) }
    }

    /// Replaces the world wholesale with a newly generated one.
    pub fn renew(&mut self)
        ensures
            game_wf(*final (self)),
    {
        self.nodes = gen_nodes(DEFAULT_NODE_COUNT);
    }

    /// Dispatches one inbound request and builds the one addressed
    /// response it owes: join and state query answer the requesting
    /// player alone with the current snapshot and leave the world
    /// untouched; restart regenerates the world and answers everyone
    /// with the new snapshot.
    pub fn handle_request(&mut self, p_req: &PersonalRequest) -> (r: AddressResponse)
        ensures
            game_wf(*old(self)) ==> game_wf(*final (self)),
            match p_req.request {
                Request::NewPlayer => snapshot_reply(*old(self), *final (self), p_req.player, r),
                Request::GetState => snapshot_reply(*old(self), *final (self), p_req.player, r),
                Request::Restart => restart_reply(*final (self), r),
            },
    {
        match p_req.request {
            Request::NewPlayer => AddressResponse {
                whom: Address::Player(p_req.player),
                response: Response::GameState { nodes: clone_nodes(&self.nodes) },
            },
            Request::GetState => AddressResponse {
                whom: Address::Player(p_req.player),
                response: Response::GameState { nodes: clone_nodes(&self.nodes) },
            },
            Request::Restart => {
                self.renew();
                AddressResponse {
                    whom: Address::All,
                    response: Response::GameState { nodes: clone_nodes(&self.nodes) },
                }
            },
        }
    }
}

/// Idempotent query: two consecutive state queries by the same player,
/// with no restart in between, return the same node list, each addressed
/// to that player alone.
pub proof fn lemma_query_idempotent(
    g1: Game,
    g2: Game,
    g3: Game,
    player: PlayerId,
    r1: AddressResponse,
    r2: AddressResponse,
)
    requires
        snapshot_reply(g1, g2, player, r1),
        snapshot_reply(g2, g3, player, r2),
    ensures
        r1.response.nodes_seq() == r2.response.nodes_seq(),
        r1.whom == Address::Player(player),
        r2.whom == Address::Player(player),
{
}

/// Join mirrors query: a join and a state query by the same player
/// against the same world state carry identical payloads, and each is
/// addressed to that player alone.
pub proof fn lemma_join_mirrors_query(
    g: Game,
    post_join: Game,
    post_query: Game,
    player: PlayerId,
    rj: AddressResponse,
    rq: AddressResponse,
)
    requires
        snapshot_reply(g, post_join, player, rj),
        snapshot_reply(g, post_query, player, rq),
    ensures
        rj.response.nodes_seq() == rq.response.nodes_seq(),
        rj.whom == rq.whom,
        rj.whom == Address::Player(player),
{
}

} // verus!
