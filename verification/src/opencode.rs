//! Servers of the OpenCode program, which work on one directory each.
pub mod server;
