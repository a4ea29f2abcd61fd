//! The processes of an agent and the events that they emit.
use crate::config::F32;
use vstd::prelude::*;

verus! {

/// A process of an agent. Branches and workers are known by their ids.
pub enum ProcessId {
    Channel(String),
    Branch(String),
    Worker(String),
}

impl ProcessId {
    /// Copies the identity of a process.
    pub fn copy(&self) -> (r: Self)
        ensures
            r == *self,
    {
        match self {
            ProcessId::Channel(id) => ProcessId::Channel(id.clone()),
            ProcessId::Branch(id) => ProcessId::Branch(id.clone()),
            ProcessId::Worker(id) => ProcessId::Worker(id.clone()),
        }
    }
}

/// What a process reports.
pub enum ProcessEvent {
    BranchStarted { branch_id: String, channel_id: String, description: String },
    BranchResult { branch_id: String, channel_id: String, conclusion: String },
    WorkerStarted { worker_id: String, channel_id: Option<String>, task: String },
    WorkerStatus { worker_id: String, channel_id: Option<String>, status: String },
    WorkerComplete { worker_id: String, channel_id: Option<String>, result: String, notify: bool },
    ToolStarted { process_id: ProcessId, channel_id: Option<String>, tool_name: String },
    ToolCompleted {
        process_id: ProcessId,
        channel_id: Option<String>,
        tool_name: String,
        result: String,
    },
    MemorySaved { memory_id: String },
    CompactionTriggered { channel_id: String, threshold_reached: F32 },
    StatusUpdate { process_id: ProcessId, status: String },
}

} // verus!
