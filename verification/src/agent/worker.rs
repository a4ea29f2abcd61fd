//! Worker: independent task execution process.
use crate::llm::chat;
use crate::llm::chat::{extract_last_assistant_text, ChatMessage};
use crate::outside::fresh_id;
use crate::text::cat2;
use vstd::prelude::*;

verus! {

/// Worker state machine.
#[derive(Clone, Copy, Debug, PartialEq, Eq, Structural)]
pub enum WorkerState {
    /// Worker is running and processing.
    Running,
    /// Worker is waiting for follow-up input (interactive only).
    WaitingForInput,
    /// Worker has completed successfully.
    Done,
    /// Worker has failed.
    Failed,
}

/// A state may follow another.
pub open spec fn may_follow(from: WorkerState, to: WorkerState) -> bool {
    match (from, to) {
        (WorkerState::Running, WorkerState::WaitingForInput) => true,
        (WorkerState::Running, WorkerState::Done) => true,
        (WorkerState::Running, WorkerState::Failed) => true,
        (WorkerState::WaitingForInput, WorkerState::Running) => true,
        (WorkerState::WaitingForInput, WorkerState::Failed) => true,
        _ => false,
    }
}

/// A transition that is not allowed.
#[derive(Clone, Copy, Debug, PartialEq, Eq, Structural)]
pub struct InvalidStateTransition {
    pub from: WorkerState,
    pub to: WorkerState,
}

/// The name of a state.
pub open spec fn state_name(s: WorkerState) -> Seq<char> {
    match s {
        WorkerState::Running => "Running"@,
        WorkerState::WaitingForInput => "WaitingForInput"@,
        WorkerState::Done => "Done"@,
        WorkerState::Failed => "Failed"@,
    }
}

impl WorkerState {
    /// The name of a state.
    pub fn name(&self) -> (r: &'static str)
        ensures
            r@ == state_name(*self),
    {
        match self {
            WorkerState::Running => "Running",
            WorkerState::WaitingForInput => "WaitingForInput",
            WorkerState::Done => "Done",
            WorkerState::Failed => "Failed",
        }
    }
}

impl InvalidStateTransition {
    /// Says which transition is not allowed.
    pub fn message(&self) -> (r: String)
        ensures
            r@ == "can't transition from "@ + state_name(self.from) + " to "@ + state_name(self.to),
    {
        let mut out = cat2("can't transition from ", self.from.name());
        out.append(" to ");
        out.append(self.to.name());
        out
    }
}

/// Turns that a worker may take.
pub const WORKER_MAX_TURNS: usize = 50;

/// A worker process that executes tasks independently.
pub struct Worker {
    pub id: String,
    pub channel_id: Option<String>,
    pub task: String,
    pub state: WorkerState,
    /// System prompt of the worker.
    pub system_prompt: String,
    /// Takes follow-up input.
    pub interactive: bool,
    /// What it last reported.
    pub status: String,
}

/// What came of a prompt to a model.
pub enum PromptOutcome {
    Response(String),
    /// The model used up its turns.
    MaxTurns,
    Cancelled(String),
    Failed(String),
}

/// How a worker goes on.
pub enum WorkerNext {
    /// It waits for input.
    Wait,
    /// It takes no more input, and is about to end.
    Close,
    /// It ends with a result, or with an error.
    Finish(Result<String, String>),
}

/// What an ended run gives.
pub open spec fn finishes(next: WorkerNext, result: Result<Seq<char>, Seq<char>>) -> bool {
    match next {
        WorkerNext::Wait => false,
        WorkerNext::Close => false,
        WorkerNext::Finish(Ok(s)) => result == Ok::<Seq<char>, Seq<char>>(s@),
        WorkerNext::Finish(Err(e)) => result == Err::<Seq<char>, Seq<char>>(e@),
    }
}

/// The partial result of a worker that used up its turns.
pub open spec fn partial_result(history: Seq<ChatMessage>) -> Seq<char> {
    match chat::last_said(history) {
        Some(s) => s,
        None => "Worker exhausted its turns."@,
    }
}

/// The same worker, but for its state and its status.
pub open spec fn same_task(a: Worker, b: Worker) -> bool {
    a.id == b.id && a.channel_id == b.channel_id && a.task == b.task && a.system_prompt
        == b.system_prompt && a.interactive == b.interactive
}

impl Worker {
    /// Create a new fire-and-forget worker. Its identifier is new.
    pub fn new(channel_id: Option<String>, task: String, system_prompt: String) -> (r: Self)
        ensures
            r.id@.len() == 36,
            r.channel_id == channel_id,
            r.task == task,
            r.state == WorkerState::Running,
            r.system_prompt == system_prompt,
            !r.interactive,
            r.status@ == "starting"@,
    {
        Worker {
            id: fresh_id(),
            channel_id,
            task,
            state: WorkerState::Running,
            system_prompt,
            interactive: false,
            status: "starting".to_owned(),
        }
    }

    /// Create a new interactive worker. Its identifier is new.
    pub fn new_interactive(channel_id: Option<String>, task: String, system_prompt: String) -> (r:
        Self)
        ensures
            r.id@.len() == 36,
            r.channel_id == channel_id,
            r.task == task,
            r.state == WorkerState::Running,
            r.system_prompt == system_prompt,
            r.interactive,
            r.status@ == "starting"@,
    {
        let mut worker = Worker::new(channel_id, task, system_prompt);
        worker.interactive = true;
        worker
    }

    /// Check if the worker can transition to a new state.
    pub fn can_transition_to(&self, target: WorkerState) -> (r: bool)
        ensures
            r == may_follow(self.state, target),
    {
        match (self.state, target) {
            (WorkerState::Running, WorkerState::WaitingForInput) => true,
            (WorkerState::Running, WorkerState::Done) => true,
            (WorkerState::Running, WorkerState::Failed) => true,
            (WorkerState::WaitingForInput, WorkerState::Running) => true,
            (WorkerState::WaitingForInput, WorkerState::Failed) => true,
            _ => false,
        }
    }

    /// Transition to a new state. A state that may not follow is refused, and the
    /// worker stays as it is.
    pub fn transition_to(&mut self, new_state: WorkerState) -> (r: Result<
        (),
        InvalidStateTransition,
    >)
        ensures
            if may_follow(old(self).state, new_state) {
                r is Ok && final(self).state == new_state && same_task(*final(self), *old(self))
                    && final(self).status == old(self).status
            } else {
                r == Err::<(), _>(
                    (InvalidStateTransition { from: old(self).state, to: new_state }),
                ) && *final(self) == *old(self)
            },
    {
        if !self.can_transition_to(new_state) {
            return Err(InvalidStateTransition { from: self.state, to: new_state });
        }
        self.state = new_state;
        Ok(())
    }

    /// Check if worker is in a terminal state.
    pub fn is_done(&self) -> (r: bool)
        ensures
            r == (self.state is Done || self.state is Failed),
    {
        match self.state {
            WorkerState::Done => true,
            WorkerState::Failed => true,
            _ => false,
        }
    }

    /// Check if worker is interactive.
    pub fn is_interactive(&self) -> (r: bool)
        ensures
            r == self.interactive,
    {
        self.interactive
    }

    /// Takes a state, and reports a status.
    fn report(&mut self, state: WorkerState, status: &str)
        ensures
            same_task(*final(self), *old(self)),
            final(self).state == state,
            final(self).status@ == status@,
    {
        self.state = state;
        self.status = status.to_owned();
    }

    /// Begins to work on the task.
    pub fn begin(&mut self)
        ensures
            same_task(*final(self), *old(self)),
            final(self).state == old(self).state,
            final(self).status@ == "running"@,
    {
        self.status = "running".to_owned();
    }

    /// Takes in what came of the task. A fire-and-forget worker ends; an interactive
    /// one that got an answer waits for input.
    pub fn task_answered(&mut self, outcome: &PromptOutcome, history: &Vec<ChatMessage>) -> (r:
        WorkerNext)
        ensures
            same_task(*final(self), *old(self)),
            match outcome {
                PromptOutcome::Response(s) => if old(self).interactive {
                    r is Wait && final(self).state is WaitingForInput && final(self).status@
                        == "waiting for input"@
                } else {
                    finishes(r, Ok(s@)) && final(self).state is Done && final(self).status@
                        == "completed"@
                },
                PromptOutcome::MaxTurns => finishes(r, Ok(partial_result(history@)))
                    && final(self).state is Done && final(self).status@
                    == "completed (hit turn limit)"@,
                PromptOutcome::Cancelled(reason) => finishes(
                    r,
                    Ok("Worker cancelled: "@ + reason@),
                ) && final(self).state is Failed && final(self).status@ == "cancelled"@,
                PromptOutcome::Failed(error) => finishes(r, Err(error@)) && final(
                    self).state is Failed && final(self).status@ == "failed"@,
            },
    {
        match outcome {
            PromptOutcome::Response(s) => if self.interactive {
                self.report(WorkerState::WaitingForInput, "waiting for input");
                WorkerNext::Wait
            } else {
                self.report(WorkerState::Done, "completed");
                WorkerNext::Finish(Ok(s.clone()))
            },
            PromptOutcome::MaxTurns => {
                self.report(WorkerState::Done, "completed (hit turn limit)");
                let partial = match extract_last_assistant_text(history) {
                    Some(s) => s,
                    None => "Worker exhausted its turns.".to_owned(),
                };
                WorkerNext::Finish(Ok(partial))
            },
            PromptOutcome::Cancelled(reason) => {
                self.report(WorkerState::Failed, "cancelled");
                WorkerNext::Finish(Ok(cat2("Worker cancelled: ", reason.as_str())))
            },
            PromptOutcome::Failed(error) => {
                self.report(WorkerState::Failed, "failed");
                WorkerNext::Finish(Err(error.clone()))
            },
        }
    }

    /// Takes up follow-up input.
    pub fn input_arrived(&mut self)
        ensures
            same_task(*final(self), *old(self)),
            final(self).state is Running,
            final(self).status@ == "processing follow-up"@,
    {
        self.report(WorkerState::Running, "processing follow-up");
    }

    /// Takes in what came of follow-up input. After an answer the worker waits for
    /// more; a failure is reported, and the worker takes no more input.
    pub fn follow_up_answered(&mut self, answered: bool) -> (r: WorkerNext)
        ensures
            same_task(*final(self), *old(self)),
            if answered {
                r is Wait && final(self).state is WaitingForInput && final(self).status@
                    == "waiting for input"@
            } else {
                r is Close && final(self).state is Failed && final(self).status@ == "failed"@
            },
    {
        if answered {
            self.report(WorkerState::WaitingForInput, "waiting for input");
            WorkerNext::Wait
        } else {
            self.report(WorkerState::Failed, "failed");
            WorkerNext::Close
        }
    }

    /// Ends after the last input, with the result of the task: where no more input
    /// comes, and after a follow-up that failed.
    pub fn input_closed(&mut self, task_result: &str) -> (r: WorkerNext)
        ensures
            same_task(*final(self), *old(self)),
            finishes(r, Ok(task_result@)),
            final(self).state is Done,
            final(self).status@ == "completed"@,
    {
        self.report(WorkerState::Done, "completed");
        WorkerNext::Finish(Ok(task_result.to_owned()))
    }
}

/// No state may follow a terminal one, and no state may follow itself.
pub proof fn law_terminal_states_are_final(from: WorkerState, to: WorkerState)
    requires
        may_follow(from, to),
    ensures
        !(from is Done) && !(from is Failed),
        from != to,
{
}

/// A worker that waits can take up its work again, and a worker that works can end
/// either way.
pub proof fn law_every_state_is_reachable(to: WorkerState)
    ensures
        to is Running || may_follow(WorkerState::Running, to),
        may_follow(WorkerState::WaitingForInput, WorkerState::Running),
{
}

/// A worker that works may wait or end either way. One that waits may work again or
/// fail, and nothing else: it is not done before it has taken up its input. No other
/// state may follow any state.
pub proof fn law_states_that_may_follow(from: WorkerState, to: WorkerState)
    ensures
        may_follow(from, to) <==> (from is Running && !(to is Running)) || (from is WaitingForInput && (
        to is Running || to is Failed)),
{
}

/// Two states with the same name are the same.
pub proof fn law_states_are_told_apart(a: WorkerState, b: WorkerState)
    requires
        state_name(a) == state_name(b),
    ensures
        a == b,
{
    reveal_strlit("Running");
    reveal_strlit("WaitingForInput");
    reveal_strlit("Done");
    reveal_strlit("Failed");
    assert(state_name(WorkerState::Running).len() == 7);
    assert(state_name(WorkerState::WaitingForInput).len() == 15);
    assert(state_name(WorkerState::Done).len() == 4);
    assert(state_name(WorkerState::Failed).len() == 6);
}

/// A worker that used up its turns gives what its model said last: a text that the model
/// says on top of a history is its partial result, and what a user says changes nothing.
pub proof fn law_partial_result_is_what_was_said_last(
    history: Seq<ChatMessage>,
    m: ChatMessage,
    s: String,
)
    ensures
        m matches ChatMessage::Assistant(content) ==> (content@ == seq![
            chat::AssistantContent::Text(s),
        ] ==> partial_result(history.push(m)) == s@),
        m is User ==> partial_result(history.push(m)) == partial_result(history),
        partial_result(Seq::empty()) == "Worker exhausted its turns."@,
{
    chat::law_last_answer_counts(history, m, s, m);
    if let ChatMessage::Assistant(content) = m {
        if content@ == seq![chat::AssistantContent::Text(s)] {
            assert(content@[0] is Text);
        }
    }
}

/// A worker that goes on gives no result, and one that ends gives one only.
pub proof fn law_a_worker_ends_once(
    next: WorkerNext,
    a: Result<Seq<char>, Seq<char>>,
    b: Result<Seq<char>, Seq<char>>,
)
    requires
        finishes(next, a),
    ensures
        next is Finish,
        next->Finish_0 is Ok <==> a is Ok,
        a is Ok ==> next->Finish_0->Ok_0@ == a->Ok_0,
        a is Err ==> next->Finish_0->Err_0@ == a->Err_0,
        finishes(next, b) ==> a == b,
{
}

/// What a worker does changes neither its identity, its task nor its prompt.
pub proof fn law_a_worker_keeps_its_task(a: Worker, b: Worker)
    requires
        same_task(a, b),
    ensures
        a.id@ == b.id@ && a.task@ == b.task@ && a.system_prompt@ == b.system_prompt@,
        a.channel_id == b.channel_id,
        a.interactive <==> b.interactive,
{
}

} // verus!
