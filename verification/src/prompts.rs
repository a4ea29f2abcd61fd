//! The prompts of the processes.
pub mod engine;
