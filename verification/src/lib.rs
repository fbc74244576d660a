//! Verified core of an agent memory server.
pub mod auto_improve;
pub mod decisions;
pub mod error;
pub mod fetch;
pub mod handoff;
pub mod ids;
pub mod json;
pub mod openai_compat;
pub mod payload;
pub mod process;
pub mod project_cache;
pub mod resolve;
pub mod scheduler;
pub mod staging;
pub mod state;
pub mod text;
