//! What an agent runs: channels, branches, workers, and the processes that look
//! after them.
pub mod branch;
pub mod channel;
pub mod compactor;
pub mod cortex;
pub mod ingestion;
pub mod worker;
