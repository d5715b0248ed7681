use vstd::prelude::*;

mod gen;
mod geom;
mod nearest;
mod session;
mod world;

pub use session::Address;
pub use session::AddressResponse;
pub use session::DEFAULT_NODE_COUNT;
pub use session::Game;
pub use session::PersonalRequest;
pub use session::PlayerId;
pub use session::Request;
pub use session::Response;
pub use session::game_wf;
pub use session::lemma_join_mirrors_query;
pub use session::lemma_query_idempotent;
pub use session::restart_reply;
pub use session::snapshot_reply;

pub use gen::MAX_ATTEMPTS;
pub use gen::MAX_NODES;
pub use gen::gen_nodes;

pub use nearest::effective_cap;
pub use nearest::get_nearest_nodes;
pub use nearest::lemma_nearest_empty;
pub use nearest::nearest_result;
pub use nearest::sorted_by_dist;
pub use nearest::within_ceiling;

pub use geom::Point;
pub use geom::WORLD_MAX;
pub use geom::WORLD_MIN;
pub use geom::dist_sq;
pub use geom::pt_in_bounds;
pub use world::MIN_SEPARATION;
pub use world::Node;
pub use world::SIZE_MAX;
pub use world::SIZE_MIN;
pub use world::node_wf;
pub use world::separated;
pub use world::wf_world;
