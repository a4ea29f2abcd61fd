//! Conversations: the channels that are known, and what was said in them.
pub mod channels;
pub mod history;
