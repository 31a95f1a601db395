//! In-memory storage for MemEnv.

pub mod designator;
pub mod index_id_conv;
pub mod mem_backend;
pub mod repr;
pub mod simple_backend;

pub use mem_backend::MemBackend;
pub use repr::{Edges, Node, Triple};
pub use simple_backend::SimpleBackend;
