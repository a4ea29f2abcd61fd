//! The decision core of a messaging agent: configuration, routing, context
//! management, memory and messaging rules, stated as contracts and proved.

pub mod agent;
pub mod api;
pub mod bits;
pub mod config;
pub mod conversation;
pub mod cron;
pub mod cut;
pub mod daemon;
pub mod hashing;
pub mod hooks;
pub mod json;
pub mod llm;
pub mod memory;
pub mod message;
pub mod messaging;
pub mod opencode;
pub mod outside;
pub mod paths;
pub mod process;
pub mod prompts;
pub mod secrets;
pub mod settings;
pub mod text;
pub mod text_map;
pub mod toml_doc;
