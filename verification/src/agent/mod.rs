//! Agent-side pieces that sit on top of environments.

pub mod continuation;
pub mod env_prelude;
pub mod env_header;
pub mod lang_error;
pub mod amlang_context;
pub mod context;
pub mod env_state;
pub mod env_serializer;
pub mod exec_state;
pub mod designation;
pub mod generic_agent;
pub mod env_policy;
pub mod amlang_interpreter;
pub mod deserialize_error;
pub mod env_manager;
pub mod interpreter;
pub mod vm_interpreter;
pub mod amlang_agent;
pub mod printer;
