//! The HTTP API: its events, its answers, and the changes that it makes to the
//! configuration file.
use vstd::prelude::*;

pub mod agent_config;
pub mod bindings;
pub mod memories;
pub mod models;
pub mod overview;
pub mod providers;
pub mod server;
pub mod settings;
pub mod state;

verus! {

/// Why a request fails.
#[derive(Clone, Copy, Debug, PartialEq, Eq, Structural)]
pub enum ApiError {
    BadRequest,
    NotFound,
    Internal,
}

} // verus!
