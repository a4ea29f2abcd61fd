//! Channel: the user-facing conversation process.
use crate::agent::branch::Branch;
use crate::agent::worker::{Worker, WorkerState};
use crate::llm::chat;
use crate::llm::chat::{copy_history, user_text, ChatMessage};
use crate::message;
use crate::message::MessageContent;
use crate::process::ProcessEvent;
use crate::text;
use crate::text::{cat2, cat3, str_eq};
use vstd::prelude::*;

verus! {

/// Channel configuration.
#[derive(Clone, Copy, Debug, PartialEq, Eq, Structural)]
pub struct ChannelConfig {
    /// Maximum concurrent branches.
    pub max_concurrent_branches: usize,
    /// Maximum turns for channel LLM calls.
    pub max_turns: usize,
}

impl Default for ChannelConfig {
    fn default() -> (r: Self)
        ensures
            r == (ChannelConfig { max_concurrent_branches: 5, max_turns: 5 }),
    {
        ChannelConfig { max_concurrent_branches: 5, max_turns: 5 }
    }
}

/// A branch that may not be started.
pub struct BranchLimitReached {
    pub channel_id: String,
    pub max: usize,
}

/// What a channel holds: its history, and the processes that it has started.
pub struct ChannelState {
    pub channel_id: String,
    pub history: Vec<ChatMessage>,
    pub active_branches: Vec<String>,
    pub active_workers: Vec<String>,
    pub max_concurrent_branches: usize,
}

/// The text of a message with which a process reports to its channel.
pub open spec fn is_report(m: ChatMessage, s: Seq<char>) -> bool {
    m is User && m->User_0@.len() == 1 && m->User_0@[0] is Text && m->User_0@[0]->Text_0@ == s
}

/// A list of names without one of them.
pub open spec fn without(names: Seq<Seq<char>>, name: Seq<char>) -> Seq<Seq<char>>
    decreases names.len(),
{
    if names.len() == 0 {
        Seq::empty()
    } else {
        let rest = without(names.drop_last(), name);
        if names.last() == name {
            rest
        } else {
            rest.push(names.last())
        }
    }
}

/// Takes a name out of a list.
fn remove_name(names: &mut Vec<String>, name: &str)
    ensures
        text::texts(final(names)@) == without(text::texts(old(names)@), name@),
{
    let ghost all = text::texts(names@);
    let mut kept: Vec<String> = Vec::new();
    let n: usize = names.len();
    let mut i: usize = 0;
    assert(text::texts(kept@) =~= Seq::<Seq<char>>::empty());
    while i < n
        invariant
            n == names@.len(),
            i <= n,
            all == text::texts(names@),
            all == text::texts(old(names)@),
            text::texts(kept@) == without(all.take(i as int), name@),
        decreases n - i,
    {
        proof {
            assert(all.take(i + 1).drop_last() =~= all.take(i as int));
            assert(all.take(i + 1).last() == names@[i as int]@);
        }
        if !str_eq(names[i].as_str(), name) {
            let ghost before = kept@;
            kept.push(names[i].clone());
            assert(text::texts(kept@) =~= text::texts(before).push(names@[i as int]@));
        }
        i = i + 1;
    }
    assert(all.take(n as int) =~= all);
    *names = kept;
}

/// The same channel, but for its history and its processes.
pub open spec fn same_channel(a: ChannelState, b: ChannelState) -> bool {
    a.channel_id == b.channel_id && a.max_concurrent_branches == b.max_concurrent_branches
}

/// No more branches are active than the channel allows.
pub open spec fn within_limit(s: ChannelState) -> bool {
    s.active_branches@.len() <= s.max_concurrent_branches
}

/// A history with one more report.
pub open spec fn with_report(
    before: Seq<ChatMessage>,
    after: Seq<ChatMessage>,
    s: Seq<char>,
) -> bool {
    after.len() == before.len() + 1 && after.drop_last() == before && is_report(after.last(), s)
}

/// The system prompt of a turn: the prompt of the channel, with the status of its
/// processes where there is any.
pub open spec fn turn_prompt(system_prompt: Seq<char>, status: Seq<char>) -> Seq<char> {
    if status.len() == 0 {
        system_prompt
    } else {
        system_prompt + "\n\n## Current Status\n\n"@ + status
    }
}

/// Writes the system prompt of a turn.
pub fn system_prompt_for_turn(system_prompt: &str, status: &str) -> (r: String)
    ensures
        r@ == turn_prompt(system_prompt@, status@),
{
    if status.is_empty() {
        system_prompt.to_owned()
    } else {
        cat3(system_prompt, "\n\n## Current Status\n\n", status)
    }
}

/// What a user says to a channel.
pub fn user_prompt(content: &MessageContent) -> (r: String)
    ensures
        r@ == message::raw_text(content@),
{
    content.raw_text()
}

impl ChannelState {
    /// A channel without a history.
    pub fn new(channel_id: String, config: &ChannelConfig) -> (r: Self)
        ensures
            r.channel_id == channel_id,
            r.history@.len() == 0,
            r.active_branches@.len() == 0,
            r.active_workers@.len() == 0,
            r.max_concurrent_branches == config.max_concurrent_branches,
            within_limit(r),
    {
        ChannelState {
            channel_id,
            history: Vec::new(),
            active_branches: Vec::new(),
            active_workers: Vec::new(),
            max_concurrent_branches: config.max_concurrent_branches,
        }
    }

    /// Checks the limit of branches.
    pub fn check_branch_limit(&self) -> (r: Result<(), BranchLimitReached>)
        ensures
            match r {
                Ok(_) => self.active_branches@.len() < self.max_concurrent_branches,
                Err(e) => self.active_branches@.len() >= self.max_concurrent_branches
                    && e.channel_id == self.channel_id && e.max == self.max_concurrent_branches,
            },
    {
        if self.active_branches.len() >= self.max_concurrent_branches {
            Err(
                BranchLimitReached {
                    channel_id: self.channel_id.clone(),
                    max: self.max_concurrent_branches,
                },
            )
        } else {
            Ok(())
        }
    }

    /// Handle a process event: the conclusion of a branch and the result of a worker
    /// become part of the history, so that the model sees them on the next turn.
    pub fn handle_event(&mut self, event: &ProcessEvent)
        ensures
            same_channel(*final(self), *old(self)),
            within_limit(*old(self)) ==> within_limit(*final(self)),
            match event {
                ProcessEvent::BranchResult { branch_id, conclusion, .. } => text::texts(
                    final(self).active_branches@,
                ) == without(text::texts(old(self).active_branches@), branch_id@) && final(
                    self).active_workers == old(self).active_workers && with_report(
                    old(self).history@,
                    final(self).history@,
                    "[Branch result]: "@ + conclusion@,
                ),
                ProcessEvent::WorkerComplete { worker_id, result, notify, .. } => text::texts(
                    final(self).active_workers@,
                ) == without(text::texts(old(self).active_workers@), worker_id@) && final(
                    self).active_branches == old(self).active_branches && (if *notify {
                    with_report(
                        old(self).history@,
                        final(self).history@,
                        "[Worker completed]: "@ + result@,
                    )
                } else {
                    final(self).history == old(self).history
                }),
                _ => *final(self) == *old(self),
            },
    {
        match event {
            ProcessEvent::BranchResult { branch_id, conclusion, .. } => {
                remove_name(&mut self.active_branches, branch_id.as_str());
                proof {
                    let before = text::texts(old(self).active_branches@);
                    law_reported_branch_is_inactive(before, branch_id@, branch_id@);
                    assert(text::texts(self.active_branches@).len() == self.active_branches@.len());
                    assert(before.len() == old(self).active_branches@.len());
                }
                let m = user_text(cat2("[Branch result]: ", conclusion.as_str()));
                self.history.push(m);
                assert(self.history@.drop_last() =~= old(self).history@);
            },
            ProcessEvent::WorkerComplete { worker_id, result, notify, .. } => {
                remove_name(&mut self.active_workers, worker_id.as_str());
                if *notify {
                    let m = user_text(cat2("[Worker completed]: ", result.as_str()));
                    self.history.push(m);
                    assert(self.history@.drop_last() =~= old(self).history@);
                }
            },
            _ => {},
        }
    }
}

/// What a worker reports when it ends: its result, or why it failed.
pub fn worker_report(result: &Result<String, String>) -> (r: String)
    ensures
        r@ == (match result {
            Ok(s) => s@,
            Err(e) => "Worker failed: "@ + e@,
        }),
{
    match result {
        Ok(s) => s.clone(),
        Err(e) => cat2("Worker failed: ", e.as_str()),
    }
}

/// The event with which the end of a worker is made known to its channel.
pub fn worker_complete(
    worker_id: String,
    channel_id: Option<String>,
    result: &Result<String, String>,
) -> (r: ProcessEvent)
    ensures
        r matches ProcessEvent::WorkerComplete { worker_id: w, channel_id: c, result: s, notify }
            && w == worker_id && c == channel_id && notify && s@ == (match result {
            Ok(s) => s@,
            Err(e) => "Worker failed: "@ + e@,
        }),
{
    ProcessEvent::WorkerComplete {
        worker_id,
        channel_id,
        result: worker_report(result),
        notify: true,
    }
}

/// Spawn a branch of a channel, where the limit allows one more. It starts with a
/// copy of the history, and is asked for its description.
pub fn spawn_branch_from_state(
    state: &mut ChannelState,
    description: String,
    branch_system_prompt: String,
    max_turns: usize,
) -> (r: Result<Branch, BranchLimitReached>)
    ensures
        within_limit(*old(state)) ==> within_limit(*final(state)),
        match r {
            Ok(branch) => {
                &&& old(state).active_branches@.len() < old(state).max_concurrent_branches
                &&& branch.id@.len() == 36
                &&& branch.channel_id == old(state).channel_id
                &&& branch.description == description
                &&& branch.system_prompt == branch_system_prompt
                &&& branch.max_turns == max_turns
                &&& branch.overflow_retries == 0
                &&& chat::history_view(branch.history@) == chat::history_view(old(state).history@)
                &&& final(state).active_branches@ == old(state).active_branches@.push(branch.id)
                &&& final(state).history == old(state).history
                &&& final(state).active_workers == old(state).active_workers
                &&& same_channel(*final(state), *old(state))
            },
            Err(e) => old(state).active_branches@.len() >= old(state).max_concurrent_branches
                && e.channel_id == old(state).channel_id && e.max == old(
                state).max_concurrent_branches && *final(state) == *old(state),
        },
{
    match state.check_branch_limit() {
        Ok(_) => {},
        Err(e) => {
            return Err(e);
        },
    }
    let history = copy_history(&state.history);
    let branch = Branch::new(
        state.channel_id.clone(),
        description,
        branch_system_prompt,
        history,
        max_turns,
    );
    state.active_branches.push(branch.id.clone());
    Ok(branch)
}

/// Spawn a worker of a channel.
pub fn spawn_worker_from_state(
    state: &ChannelState,
    task: String,
    worker_system_prompt: String,
    interactive: bool,
) -> (r: Worker)
    ensures
        r.id@.len() == 36,
        r.channel_id == Some(state.channel_id),
        r.task == task,
        r.state == WorkerState::Running,
        r.system_prompt == worker_system_prompt,
        r.interactive == interactive,
        r.status@ == "starting"@,
{
    let channel_id = Some(state.channel_id.clone());
    if interactive {
        Worker::new_interactive(channel_id, task, worker_system_prompt)
    } else {
        Worker::new(channel_id, task, worker_system_prompt)
    }
}

/// A branch that has reported is no longer active, and others stay active.
pub proof fn law_reported_branch_is_inactive(
    names: Seq<Seq<char>>,
    name: Seq<char>,
    other: Seq<char>,
)
    ensures
        !without(names, name).contains(name),
        other != name ==> without(names, name).contains(other) == names.contains(other),
        without(names, name).len() <= names.len(),
    decreases names.len(),
{
    if names.len() > 0 {
        law_reported_branch_is_inactive(names.drop_last(), name, other);
        let rest = without(names.drop_last(), name);
        let init = names.drop_last();
        if init.contains(other) {
            let k = choose|k: int| 0 <= k < init.len() && init[k] == other;
            assert(names[k] == other);
        }
        if names.contains(other) && names.last() != other {
            let k = choose|k: int| 0 <= k < names.len() && names[k] == other;
            assert(init[k] == other);
        }
        if names.last() != name {
            let w = rest.push(names.last());
            assert(w.last() == names.last());
            if rest.contains(other) {
                let k = choose|k: int| 0 <= k < rest.len() && rest[k] == other;
                assert(w[k] == other);
            }
            if w.contains(other) && names.last() != other {
                let k = choose|k: int| 0 <= k < w.len() && w[k] == other;
                assert(rest[k] == other);
            }
            if w.contains(name) {
                let k = choose|k: int| 0 <= k < w.len() && w[k] == name;
                assert(rest[k] == name);
            }
        }
    }
}

/// Taking a name out of a list leaves the others in their order: one more name at the
/// end is taken out where it is the one, and else stays last.
pub proof fn law_other_processes_keep_their_order(
    names: Seq<Seq<char>>,
    last: Seq<char>,
    name: Seq<char>,
)
    ensures
        last == name ==> without(names.push(last), name) == without(names, name),
        last != name ==> without(names.push(last), name) == without(names, name).push(last),
        without(Seq::empty(), name).len() == 0,
{
    assert(names.push(last).drop_last() == names);
}

/// A report comes last in the history, as something that the user says, and every message
/// before it stays.
pub proof fn law_report_is_said_last(
    before: Seq<ChatMessage>,
    after: Seq<ChatMessage>,
    s: Seq<char>,
    i: int,
)
    requires
        with_report(before, after, s),
    ensures
        after.len() == before.len() + 1,
        0 <= i < before.len() ==> after[i] == before[i],
        after[before.len() as int] is User,
        after[before.len() as int]->User_0@.len() == 1,
        after[before.len() as int]->User_0@[0] is Text,
        after[before.len() as int]->User_0@[0]->Text_0@ == s,
{
    if 0 <= i < before.len() {
        assert(after.drop_last()[i] == after[i]);
    }
}

/// The prompt of a turn starts with the prompt of the channel, and ends with the status
/// of its processes; without any status nothing is added.
pub proof fn law_turn_prompt_holds_the_status(system_prompt: Seq<char>, status: Seq<char>)
    ensures
        system_prompt.is_prefix_of(turn_prompt(system_prompt, status)),
        status.len() == 0 ==> turn_prompt(system_prompt, status) == system_prompt,
        status.len() > 0 ==> turn_prompt(system_prompt, status).skip(system_prompt.len() as int)
            == "\n\n## Current Status\n\n"@ + status,
{
    if status.len() > 0 {
        assert(turn_prompt(system_prompt, status).skip(system_prompt.len() as int)
            == "\n\n## Current Status\n\n"@ + status);
    }
}

} // verus!
