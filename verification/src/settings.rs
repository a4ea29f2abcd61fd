//! Settings that an agent keeps between runs.
pub mod store;
