//! Credentials storage.
pub mod store;
