//! Hooks that observe and guard the model's tool use.
pub mod cortex;
pub mod spacebot;
