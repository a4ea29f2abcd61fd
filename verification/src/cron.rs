//! Scheduled prompts.
pub mod store;
