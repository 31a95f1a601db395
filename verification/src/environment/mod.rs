//! The first form of the environment abstraction, kept for the agents that
//! use it.

pub mod environment;
pub mod mem_environment;
pub mod node;
pub mod serial_overlay;

pub use environment::{Environment, NodeSet, TripleSet};
pub use mem_environment::MemEnvironment;
pub mod append_vec;
pub mod meta_environment;
