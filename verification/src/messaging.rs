//! Messaging platforms: which messages are taken in, and what is sent out.
pub mod manager;
pub mod slack;
pub mod telegram;
pub mod webhook;
pub mod traits;
