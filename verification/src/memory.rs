//! Memories: how they are stored, linked, searched and maintained.
pub mod maintenance;
pub mod search;
pub mod store;
pub mod types;
