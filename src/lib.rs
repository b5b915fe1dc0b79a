//! An in-memory engine for a message DAG ("tangle"): a vertex store with
//! parent/child links, solidification, milestone confirmation, refresh of
//! root snapshot indices, and weighted tip selection.
pub mod confirm;
pub mod engine;
pub mod ingest;
pub mod laws;
pub mod models;
pub mod scan;
pub mod solidify;
pub mod store;
pub mod tips;
pub mod utils;

pub use engine::{init, Tangle};
pub use models::{
    IndexId, InternedHash, Message, MessageKind, Metadata, MilestoneIndex, Parents, Payload, Score,
    Vertex,
};
pub use tips::{pick_weighted, BELOW_MAX_DEPTH, MAX_SELECTED, OTRSI_DELTA, YTRSI_DELTA};
pub use utils::{make_tangle_1_milestone, make_tangle_2_milestones, make_tangle_reversed_arrival};
