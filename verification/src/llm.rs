//! Language models: messages, providers, routing, and what is said to them.
pub mod chat;
pub mod manager;
pub mod model;
pub mod routing;
