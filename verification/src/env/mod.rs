//! Environments: triple stores of local nodes.

pub mod entry;
pub mod environment;
pub mod local_node;
pub mod mem_backend;
pub mod triple_ids;
pub mod triple_set;

pub use environment::{EnvModel, Environment};
pub use local_node::{LocalId, LocalNode, LocalTriple};
pub use triple_set::TripleSet;
pub mod mem_env;
pub mod meta_env;
pub mod raw_overlay;
