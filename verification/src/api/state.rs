//! What the API shows of agents, and the events that it forwards.
use crate::config::clone_opt;
use crate::config::ResolvedAgentConfig;
use crate::process::{ProcessEvent, ProcessId};
use vstd::prelude::*;

verus! {

/// Summary of an agent's configuration, exposed via the API.
#[derive(Clone, Debug)]
pub struct AgentInfo {
    pub id: String,
    pub workspace: String,
    pub context_window: usize,
    pub max_turns: usize,
    pub max_concurrent_branches: usize,
    pub max_concurrent_workers: usize,
}

impl AgentInfo {
    /// The summary of a resolved configuration.
    pub fn of(c: &ResolvedAgentConfig) -> (r: Self)
        ensures
            r == (AgentInfo {
                id: c.id,
                workspace: c.workspace,
                context_window: c.context_window,
                max_turns: c.max_turns,
                max_concurrent_branches: c.max_concurrent_branches,
                max_concurrent_workers: c.max_concurrent_workers,
            }),
    {
        AgentInfo {
            id: c.id.clone(),
            workspace: c.workspace.clone(),
            context_window: c.context_window,
            max_turns: c.max_turns,
            max_concurrent_branches: c.max_concurrent_branches,
            max_concurrent_workers: c.max_concurrent_workers,
        }
    }
}

/// Events sent to clients: the events of processes, with the agent that they
/// belong to.
pub enum ApiEvent {
    /// An inbound message from a user.
    InboundMessage { agent_id: String, channel_id: String, sender_id: String, text: String },
    /// An outbound message sent by the bot.
    OutboundMessage { agent_id: String, channel_id: String, text: String },
    /// Typing indicator state change.
    TypingState { agent_id: String, channel_id: String, is_typing: bool },
    /// A worker was started.
    WorkerStarted {
        agent_id: String,
        channel_id: Option<String>,
        worker_id: String,
        task: String,
    },
    /// A worker's status changed.
    WorkerStatusUpdate {
        agent_id: String,
        channel_id: Option<String>,
        worker_id: String,
        status: String,
    },
    /// A worker completed.
    WorkerCompleted {
        agent_id: String,
        channel_id: Option<String>,
        worker_id: String,
        result: String,
    },
    /// A branch was started.
    BranchStarted {
        agent_id: String,
        channel_id: String,
        branch_id: String,
        description: String,
    },
    /// A branch completed with a conclusion.
    BranchCompleted {
        agent_id: String,
        channel_id: String,
        branch_id: String,
        conclusion: String,
    },
    /// A tool call started on a process.
    ToolStarted {
        agent_id: String,
        channel_id: Option<String>,
        process_type: String,
        process_id: String,
        tool_name: String,
    },
    /// A tool call completed on a process.
    ToolCompleted {
        agent_id: String,
        channel_id: Option<String>,
        process_type: String,
        process_id: String,
        tool_name: String,
    },
    /// Configuration was reloaded.
    ConfigReloaded,
}

/// The kind of a process.
pub open spec fn process_kind(id: ProcessId) -> Seq<char> {
    match id {
        ProcessId::Channel(_) => "channel"@,
        ProcessId::Branch(_) => "branch"@,
        ProcessId::Worker(_) => "worker"@,
    }
}

/// The id of a process within its kind.
pub open spec fn process_key(id: ProcessId) -> String {
    match id {
        ProcessId::Channel(s) => s,
        ProcessId::Branch(s) => s,
        ProcessId::Worker(s) => s,
    }
}

/// Extract the kind and the id of a process.
pub fn process_id_info(id: &ProcessId) -> (r: (String, String))
    ensures
        r.0@ == process_kind(*id),
        r.1 == process_key(*id),
{
    match id {
        ProcessId::Channel(s) => ("channel".to_owned(), s.clone()),
        ProcessId::Branch(s) => ("branch".to_owned(), s.clone()),
        ProcessId::Worker(s) => ("worker".to_owned(), s.clone()),
    }
}

/// `r` is what clients are told of an event of an agent. Events that concern no
/// client are not forwarded.
pub open spec fn forwards(agent: String, e: ProcessEvent, r: Option<ApiEvent>) -> bool {
    match e {
        ProcessEvent::WorkerStarted { worker_id, channel_id, task } => r == Some(
            ApiEvent::WorkerStarted { agent_id: agent, channel_id, worker_id, task },
        ),
        ProcessEvent::BranchStarted { branch_id, channel_id, description } => r == Some(
            ApiEvent::BranchStarted { agent_id: agent, channel_id, branch_id, description },
        ),
        ProcessEvent::WorkerStatus { worker_id, channel_id, status } => r == Some(
            ApiEvent::WorkerStatusUpdate { agent_id: agent, channel_id, worker_id, status },
        ),
        ProcessEvent::WorkerComplete { worker_id, channel_id, result, notify: _ } => r == Some(
            ApiEvent::WorkerCompleted { agent_id: agent, channel_id, worker_id, result },
        ),
        ProcessEvent::BranchResult { branch_id, channel_id, conclusion } => r == Some(
            ApiEvent::BranchCompleted { agent_id: agent, channel_id, branch_id, conclusion },
        ),
        ProcessEvent::ToolStarted { process_id: p, channel_id: c, tool_name: t } => match r {
            Some(
                ApiEvent::ToolStarted { agent_id, channel_id, process_type, process_id, tool_name },
            ) => agent_id == agent && channel_id == c && process_type@ == process_kind(p)
                && process_id == process_key(p) && tool_name == t,
            _ => false,
        },
        ProcessEvent::ToolCompleted { process_id: p, channel_id: c, tool_name: t, result: _ } =>
            match r {
            Some(
                ApiEvent::ToolCompleted {
                    agent_id,
                    channel_id,
                    process_type,
                    process_id,
                    tool_name,
                },
            ) => agent_id == agent && channel_id == c && process_type@ == process_kind(p)
                && process_id == process_key(p) && tool_name == t,
            _ => false,
        },
        ProcessEvent::MemorySaved { .. } => r is None,
        ProcessEvent::CompactionTriggered { .. } => r is None,
        ProcessEvent::StatusUpdate { .. } => r is None,
    }
}

/// Translates an event of an agent into what clients are told.
pub fn translate_event(agent_id: &String, e: &ProcessEvent) -> (r: Option<ApiEvent>)
    ensures
        forwards(*agent_id, *e, r),
{
    match e {
        ProcessEvent::WorkerStarted { worker_id, channel_id, task } => Some(
            ApiEvent::WorkerStarted {
                agent_id: agent_id.clone(),
                channel_id: clone_opt(channel_id),
                worker_id: worker_id.clone(),
                task: task.clone(),
            },
        ),
        ProcessEvent::BranchStarted { branch_id, channel_id, description } => Some(
            ApiEvent::BranchStarted {
                agent_id: agent_id.clone(),
                channel_id: channel_id.clone(),
                branch_id: branch_id.clone(),
                description: description.clone(),
            },
        ),
        ProcessEvent::WorkerStatus { worker_id, channel_id, status } => Some(
            ApiEvent::WorkerStatusUpdate {
                agent_id: agent_id.clone(),
                channel_id: clone_opt(channel_id),
                worker_id: worker_id.clone(),
                status: status.clone(),
            },
        ),
        ProcessEvent::WorkerComplete { worker_id, channel_id, result, notify: _ } => Some(
            ApiEvent::WorkerCompleted {
                agent_id: agent_id.clone(),
                channel_id: clone_opt(channel_id),
                worker_id: worker_id.clone(),
                result: result.clone(),
            },
        ),
        ProcessEvent::BranchResult { branch_id, channel_id, conclusion } => Some(
            ApiEvent::BranchCompleted {
                agent_id: agent_id.clone(),
                channel_id: channel_id.clone(),
                branch_id: branch_id.clone(),
                conclusion: conclusion.clone(),
            },
        ),
        ProcessEvent::ToolStarted { process_id, channel_id, tool_name } => {
            let (process_type, id) = process_id_info(process_id);
            Some(
                ApiEvent::ToolStarted {
                    agent_id: agent_id.clone(),
                    channel_id: clone_opt(channel_id),
                    process_type,
                    process_id: id,
                    tool_name: tool_name.clone(),
                },
            )
        },
        ProcessEvent::ToolCompleted { process_id, channel_id, tool_name, result: _ } => {
            let (process_type, id) = process_id_info(process_id);
            Some(
                ApiEvent::ToolCompleted {
                    agent_id: agent_id.clone(),
                    channel_id: clone_opt(channel_id),
                    process_type,
                    process_id: id,
                    tool_name: tool_name.clone(),
                },
            )
        },
        ProcessEvent::MemorySaved { .. } => None,
        ProcessEvent::CompactionTriggered { .. } => None,
        ProcessEvent::StatusUpdate { .. } => None,
    }
}

/// The name under which an event is streamed.
pub open spec fn event_name(e: ApiEvent) -> Seq<char> {
    match e {
        ApiEvent::InboundMessage { .. } => "inbound_message"@,
        ApiEvent::OutboundMessage { .. } => "outbound_message"@,
        ApiEvent::TypingState { .. } => "typing_state"@,
        ApiEvent::WorkerStarted { .. } => "worker_started"@,
        ApiEvent::WorkerStatusUpdate { .. } => "worker_status"@,
        ApiEvent::WorkerCompleted { .. } => "worker_completed"@,
        ApiEvent::BranchStarted { .. } => "branch_started"@,
        ApiEvent::BranchCompleted { .. } => "branch_completed"@,
        ApiEvent::ToolStarted { .. } => "tool_started"@,
        ApiEvent::ToolCompleted { .. } => "tool_completed"@,
        ApiEvent::ConfigReloaded => "config_reloaded"@,
    }
}

impl ApiEvent {
    /// The name under which the event is streamed.
    pub fn name(&self) -> (r: String)
        ensures
            r@ == event_name(*self),
    {
        match self {
            ApiEvent::InboundMessage { .. } => "inbound_message".to_owned(),
            ApiEvent::OutboundMessage { .. } => "outbound_message".to_owned(),
            ApiEvent::TypingState { .. } => "typing_state".to_owned(),
            ApiEvent::WorkerStarted { .. } => "worker_started".to_owned(),
            ApiEvent::WorkerStatusUpdate { .. } => "worker_status".to_owned(),
            ApiEvent::WorkerCompleted { .. } => "worker_completed".to_owned(),
            ApiEvent::BranchStarted { .. } => "branch_started".to_owned(),
            ApiEvent::BranchCompleted { .. } => "branch_completed".to_owned(),
            ApiEvent::ToolStarted { .. } => "tool_started".to_owned(),
            ApiEvent::ToolCompleted { .. } => "tool_completed".to_owned(),
            ApiEvent::ConfigReloaded => "config_reloaded".to_owned(),
        }
    }
}

/// The names of the events differ.
proof fn lemma_event_names()
    ensures
        "inbound_message"@ != "outbound_message"@,
        "inbound_message"@ != "typing_state"@,
        "inbound_message"@ != "worker_started"@,
        "inbound_message"@ != "worker_status"@,
        "inbound_message"@ != "worker_completed"@,
        "inbound_message"@ != "branch_started"@,
        "inbound_message"@ != "branch_completed"@,
        "inbound_message"@ != "tool_started"@,
        "inbound_message"@ != "tool_completed"@,
        "inbound_message"@ != "config_reloaded"@,
        "outbound_message"@ != "typing_state"@,
        "outbound_message"@ != "worker_started"@,
        "outbound_message"@ != "worker_status"@,
        "outbound_message"@ != "worker_completed"@,
        "outbound_message"@ != "branch_started"@,
        "outbound_message"@ != "branch_completed"@,
        "outbound_message"@ != "tool_started"@,
        "outbound_message"@ != "tool_completed"@,
        "outbound_message"@ != "config_reloaded"@,
        "typing_state"@ != "worker_started"@,
        "typing_state"@ != "worker_status"@,
        "typing_state"@ != "worker_completed"@,
        "typing_state"@ != "branch_started"@,
        "typing_state"@ != "branch_completed"@,
        "typing_state"@ != "tool_started"@,
        "typing_state"@ != "tool_completed"@,
        "typing_state"@ != "config_reloaded"@,
        "worker_started"@ != "worker_status"@,
        "worker_started"@ != "worker_completed"@,
        "worker_started"@ != "branch_started"@,
        "worker_started"@ != "branch_completed"@,
        "worker_started"@ != "tool_started"@,
        "worker_started"@ != "tool_completed"@,
        "worker_started"@ != "config_reloaded"@,
        "worker_status"@ != "worker_completed"@,
        "worker_status"@ != "branch_started"@,
        "worker_status"@ != "branch_completed"@,
        "worker_status"@ != "tool_started"@,
        "worker_status"@ != "tool_completed"@,
        "worker_status"@ != "config_reloaded"@,
        "worker_completed"@ != "branch_started"@,
        "worker_completed"@ != "branch_completed"@,
        "worker_completed"@ != "tool_started"@,
        "worker_completed"@ != "tool_completed"@,
        "worker_completed"@ != "config_reloaded"@,
        "branch_started"@ != "branch_completed"@,
        "branch_started"@ != "tool_started"@,
        "branch_started"@ != "tool_completed"@,
        "branch_started"@ != "config_reloaded"@,
        "branch_completed"@ != "tool_started"@,
        "branch_completed"@ != "tool_completed"@,
        "branch_completed"@ != "config_reloaded"@,
        "tool_started"@ != "tool_completed"@,
        "tool_started"@ != "config_reloaded"@,
        "tool_completed"@ != "config_reloaded"@,
{
    reveal_strlit("inbound_message");
    reveal_strlit("outbound_message");
    reveal_strlit("typing_state");
    reveal_strlit("worker_started");
    reveal_strlit("worker_status");
    reveal_strlit("worker_completed");
    reveal_strlit("branch_started");
    reveal_strlit("branch_completed");
    reveal_strlit("tool_started");
    reveal_strlit("tool_completed");
    reveal_strlit("config_reloaded");
    assert("inbound_message"@[0] != "config_reloaded"@[0]);
    assert("outbound_message"@[0] != "worker_completed"@[0]);
    assert("outbound_message"@[0] != "branch_completed"@[0]);
    assert("typing_state"@[1] != "tool_started"@[1]);
    assert("worker_started"@[0] != "branch_started"@[0]);
    assert("worker_started"@[0] != "tool_completed"@[0]);
    assert("worker_completed"@[0] != "branch_completed"@[0]);
    assert("branch_started"@[0] != "tool_completed"@[0]);
    assert("inbound_message"@.len() == 15);
    assert("outbound_message"@.len() == 16);
    assert("typing_state"@.len() == 12);
    assert("worker_started"@.len() == 14);
    assert("worker_status"@.len() == 13);
    assert("worker_completed"@.len() == 16);
    assert("branch_started"@.len() == 14);
    assert("branch_completed"@.len() == 16);
    assert("tool_started"@.len() == 12);
    assert("tool_completed"@.len() == 14);
    assert("config_reloaded"@.len() == 15);
}

/// An event is streamed under the name of its kind, and under no other.
pub proof fn law_events_are_named(e: ApiEvent)
    ensures
        e is InboundMessage <==> event_name(e) == "inbound_message"@,
        e is OutboundMessage <==> event_name(e) == "outbound_message"@,
        e is TypingState <==> event_name(e) == "typing_state"@,
        e is WorkerStarted <==> event_name(e) == "worker_started"@,
        e is WorkerStatusUpdate <==> event_name(e) == "worker_status"@,
        e is WorkerCompleted <==> event_name(e) == "worker_completed"@,
        e is BranchStarted <==> event_name(e) == "branch_started"@,
        e is BranchCompleted <==> event_name(e) == "branch_completed"@,
        e is ToolStarted <==> event_name(e) == "tool_started"@,
        e is ToolCompleted <==> event_name(e) == "tool_completed"@,
        e is ConfigReloaded <==> event_name(e) == "config_reloaded"@,
{
    lemma_event_names();
}

/// The kinds of processes are told apart by their names, and a process by its id.
pub proof fn law_processes_are_told_apart(a: ProcessId, b: ProcessId)
    requires
        process_kind(a) == process_kind(b),
        process_key(a) == process_key(b),
    ensures
        a == b,
        a is Channel ==> process_kind(a) == "channel"@,
        a is Branch ==> process_kind(a) == "branch"@,
        a is Worker ==> process_kind(a) == "worker"@,
{
    reveal_strlit("channel");
    reveal_strlit("branch");
    reveal_strlit("worker");
    assert("branch"@[0] != "worker"@[0]);
    assert("channel"@.len() == 7 && "branch"@.len() == 6 && "worker"@.len() == 6);
}

/// Clients are told which agent an event belongs to, and what happened: the task of a
/// worker, its status and its result, the description of a branch and its conclusion, and
/// the tool that a process uses.
pub proof fn law_clients_are_told(agent: String, e: ProcessEvent, r: Option<ApiEvent>)
    requires
        forwards(agent, e, r),
    ensures
        r is None <==> e is MemorySaved || e is CompactionTriggered || e is StatusUpdate,
        e matches ProcessEvent::WorkerStarted { worker_id: w, task: t, .. } ==> (r matches Some(
            x,
        ) && (x matches ApiEvent::WorkerStarted { agent_id, worker_id, task, .. } && agent_id@
            == agent@ && worker_id@ == w@ && task@ == t@)),
        e matches ProcessEvent::WorkerStatus { worker_id: w, status: t, .. } ==> (r matches Some(
            x,
        ) && (x matches ApiEvent::WorkerStatusUpdate { agent_id, worker_id, status, .. }
            && agent_id@ == agent@ && worker_id@ == w@ && status@ == t@)),
        e matches ProcessEvent::WorkerComplete { worker_id: w, result: t, .. } ==> (r matches Some(
            x,
        ) && (x matches ApiEvent::WorkerCompleted { agent_id, worker_id, result, .. } && agent_id@
            == agent@ && worker_id@ == w@ && result@ == t@)),
        e matches ProcessEvent::BranchStarted { branch_id: b, description: t, .. } ==> (
        r matches Some(x) && (x matches ApiEvent::BranchStarted {
            agent_id,
            branch_id,
            description,
            ..
        } && agent_id@ == agent@ && branch_id@ == b@ && description@ == t@)),
        e matches ProcessEvent::BranchResult { branch_id: b, conclusion: t, .. } ==> (
        r matches Some(x) && (x matches ApiEvent::BranchCompleted {
            agent_id,
            branch_id,
            conclusion,
            ..
        } && agent_id@ == agent@ && branch_id@ == b@ && conclusion@ == t@)),
        e matches ProcessEvent::ToolStarted { tool_name: t, .. } ==> (r matches Some(x) && (
        x matches ApiEvent::ToolStarted { agent_id, tool_name, .. } && agent_id@ == agent@
            && tool_name@ == t@)),
        e matches ProcessEvent::ToolCompleted { tool_name: t, .. } ==> (r matches Some(x) && (
        x matches ApiEvent::ToolCompleted { agent_id, tool_name, .. } && agent_id@ == agent@
            && tool_name@ == t@)),
{
}

} // verus!
