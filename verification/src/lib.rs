//! Amlang: a triple-store of nodes (atoms, structures and triples) with
//! per-context designations, together with the small pieces of agent state
//! that sit on top of it.

pub mod env;
pub mod primitive;
pub mod sexp;
pub mod text;
pub mod agent;
pub mod continuation;
pub mod reader;
pub mod builtin;
pub mod builtins;
pub mod cons_list;
pub mod old_environment;
pub mod environment;
