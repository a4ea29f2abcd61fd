//! Branch: a fork of a channel's context for thinking.
use crate::agent::compactor;
use crate::agent::compactor::{put_first, removal_count, take_oldest};
use crate::llm::chat;
use crate::llm::chat::{extract_last_assistant_text, ChatMessage};
use crate::outside::fresh_id;
use crate::text;
use crate::text::{cat2, cat3, u64_text};
use vstd::prelude::*;

verus! {

/// Max consecutive context overflow recoveries before giving up.
pub const MAX_OVERFLOW_RETRIES: usize = 2;

/// The percentage of the context window above which a branch drops old messages
/// before it starts.
pub const PRE_COMPACT_PERCENT: usize = 70;

/// The percentage of the messages that a branch drops before it starts.
pub const PRE_COMPACT_SHARE_PERCENT: usize = 50;

/// The percentage of the messages that a branch drops to recover from an overflow.
pub const FORCE_COMPACT_SHARE_PERCENT: usize = 75;

/// A branch is a fork of a channel's context for thinking.
pub struct Branch {
    pub id: String,
    pub channel_id: String,
    pub description: String,
    /// System prompt of the branch.
    pub system_prompt: String,
    /// Clone of the channel's history at fork time.
    pub history: Vec<ChatMessage>,
    /// Maximum turns before the branch is forced to conclude.
    pub max_turns: usize,
    /// Overflows that it recovered from.
    pub overflow_retries: usize,
}

/// What came of a prompt to the model of a branch.
pub enum BranchOutcome {
    Response(String),
    /// The model used up its turns.
    MaxTurns,
    Cancelled(String),
    /// The context is too large for the model.
    Overflow,
    Failed(String),
}

/// How a branch goes on.
pub enum BranchNext {
    /// It ends with a conclusion.
    Conclude(String),
    /// It drops old messages and prompts the model again.
    Retry(String),
    /// It fails.
    Fail(String),
}

/// The marker in place of the messages that a branch dropped.
pub open spec fn compaction_marker(removed: nat) -> Seq<char> {
    "[Branch context compacted: "@ + text::decimal(removed)
        + " older messages removed to stay within context limits. Continue with the information available.]"@
}

/// What a model said last, or another text.
pub open spec fn said_or(history: Seq<ChatMessage>, other: Seq<char>) -> Seq<char> {
    match chat::last_said(history) {
        Some(s) => s,
        None => other,
    }
}

/// What a model said last, or another text.
fn last_text_or(history: &Vec<ChatMessage>, other: &str) -> (r: String)
    ensures
        r@ == said_or(history@, other@),
{
    match extract_last_assistant_text(history) {
        Some(s) => s,
        None => other.to_owned(),
    }
}

/// A history after old messages were dropped: a history of at most four messages
/// stays as it is.
pub open spec fn is_compacted(before: Seq<ChatMessage>, after: Seq<ChatMessage>, share: nat) -> bool {
    if before.len() <= 4 {
        after == before
    } else {
        let n = compactor::to_remove(share, before.len());
        &&& after.len() == before.len() - n + 1
        &&& after.skip(1) == before.skip(n as int)
        &&& after[0] is User
        &&& after[0]->User_0@.len() == 1
        &&& after[0]->User_0@[0] is Text
        &&& after[0]->User_0@[0]->Text_0@ == compaction_marker(n)
    }
}

/// The same branch, but for its history and its retries.
pub open spec fn same_branch(a: Branch, b: Branch) -> bool {
    a.id == b.id && a.channel_id == b.channel_id && a.description == b.description
        && a.system_prompt == b.system_prompt && a.max_turns == b.max_turns
}

impl Branch {
    /// Create a new branch from a channel. Its identifier is new.
    pub fn new(
        channel_id: String,
        description: String,
        system_prompt: String,
        history: Vec<ChatMessage>,
        max_turns: usize,
    ) -> (r: Self)
        ensures
            r.id@.len() == 36,
            r.channel_id == channel_id,
            r.description == description,
            r.system_prompt == system_prompt,
            r.history == history,
            r.max_turns == max_turns,
            r.overflow_retries == 0,
    {
        Branch {
            id: fresh_id(),
            channel_id,
            description,
            system_prompt,
            history,
            max_turns,
            overflow_retries: 0,
        }
    }

    /// Remove a share of the oldest messages and insert a summary marker.
    pub fn compact_history(&mut self, share: usize)
        ensures
            same_branch(*final(self), *old(self)),
            final(self).overflow_retries == old(self).overflow_retries,
            is_compacted(old(self).history@, final(self).history@, share as nat),
    {
        let total: usize = self.history.len();
        if total <= 4 {
            return ;
        }
        let n: usize = removal_count(share, total);
        let _removed = take_oldest(&mut self.history, n);
        let count = u64_text(n as u64);
        let marker = cat3(
            "[Branch context compacted: ",
            count.as_str(),
            " older messages removed to stay within context limits. Continue with the information available.]",
        );
        put_first(&mut self.history, marker);
    }

    /// Compact history if approaching context window limit: where the use of the
    /// context has reached the limit, the oldest messages are dropped.
    pub fn maybe_compact_history(&mut self, limit_reached: bool, share: usize)
        ensures
            same_branch(*final(self), *old(self)),
            final(self).overflow_retries == old(self).overflow_retries,
            if limit_reached {
                is_compacted(old(self).history@, final(self).history@, share as nat)
            } else {
                final(self).history == old(self).history
            },
    {
        if limit_reached {
            self.compact_history(share);
        }
    }

    /// Takes in what came of a prompt. An overflow is recovered from a few times by
    /// dropping old messages, a share of all; after that the branch concludes with
    /// what it has.
    pub fn answered(&mut self, outcome: &BranchOutcome, share: usize) -> (r: BranchNext)
        requires
            old(self).overflow_retries <= MAX_OVERFLOW_RETRIES,
        ensures
            same_branch(*final(self), *old(self)),
            match outcome {
                BranchOutcome::Response(s) => (r matches BranchNext::Conclude(c) && c@ == s@)
                    && *final(self) == *old(self),
                BranchOutcome::MaxTurns => (r matches BranchNext::Conclude(c) && c@ == said_or(
                    old(self).history@,
                    "Branch exhausted its turns without a final conclusion."@,
                )) && *final(self) == *old(self),
                BranchOutcome::Cancelled(reason) => (r matches BranchNext::Conclude(c) && c@
                    == "Branch was cancelled: "@ + reason@) && *final(self) == *old(self),
                BranchOutcome::Overflow => if old(self).overflow_retries < 2 {
                    (r matches BranchNext::Retry(p) && p@
                        == "Continue where you left off. Older context has been compacted."@)
                        && final(self).overflow_retries == old(self).overflow_retries + 1
                        && is_compacted(old(self).history@, final(self).history@, share as nat)
                } else {
                    (r matches BranchNext::Conclude(c) && c@ == said_or(
                        old(self).history@,
                        "Branch failed: context overflow after 2 compaction attempts"@,
                    )) && *final(self) == *old(self)
                },
                BranchOutcome::Failed(error) => (r matches BranchNext::Fail(e) && e@ == error@)
                    && *final(self) == *old(self),
            },
    {
        match outcome {
            BranchOutcome::Response(s) => BranchNext::Conclude(s.clone()),
            BranchOutcome::MaxTurns => BranchNext::Conclude(
                last_text_or(
                    &self.history,
                    "Branch exhausted its turns without a final conclusion.",
                ),
            ),
            BranchOutcome::Cancelled(reason) => BranchNext::Conclude(
                cat2("Branch was cancelled: ", reason.as_str()),
            ),
            BranchOutcome::Overflow => if self.overflow_retries < MAX_OVERFLOW_RETRIES {
                self.overflow_retries = self.overflow_retries + 1;
                self.compact_history(share);
                BranchNext::Retry(
                    "Continue where you left off. Older context has been compacted.".to_owned(),
                )
            } else {
                BranchNext::Conclude(
                    last_text_or(
                        &self.history,
                        "Branch failed: context overflow after 2 compaction attempts",
                    ),
                )
            },
            BranchOutcome::Failed(error) => BranchNext::Fail(error.clone()),
        }
    }
}

/// Dropping messages makes a history no longer, and keeps its last two messages.
pub proof fn law_compaction_keeps_the_end(
    before: Seq<ChatMessage>,
    after: Seq<ChatMessage>,
    share: nat,
)
    requires
        is_compacted(before, after, share),
        before.len() >= 2,
    ensures
        after.len() <= before.len(),
        after.len() >= 2,
        after[after.len() - 1] == before[before.len() - 1],
        after[after.len() - 2] == before[before.len() - 2],
{
    if before.len() > 4 {
        let n = compactor::to_remove(share, before.len()) as int;
        assert(after.skip(1)[after.len() - 2] == before.skip(n)[before.len() - n - 1]);
        assert(after.skip(1)[after.len() - 3] == before.skip(n)[before.len() - n - 2]);
    }
}

/// A history of more than four messages loses its oldest ones, as many as the share asks
/// for where that takes one and leaves two. A message from the user stands in their
/// place and says how many they were; the other messages follow it in order. A shorter
/// history stays as it is.
pub proof fn law_oldest_messages_are_dropped(
    before: Seq<ChatMessage>,
    after: Seq<ChatMessage>,
    share: nat,
    i: int,
)
    requires
        is_compacted(before, after, share),
    ensures
        before.len() <= 4 ==> after == before,
        before.len() > 4 ==> {
            let dropped = before.len() + 1 - after.len();
            &&& 1 <= dropped <= before.len() - 2
            &&& (1 <= share <= before.len() - 2 ==> dropped == share)
            &&& (0 <= i < before.len() - dropped ==> after[i + 1] == before[i + dropped])
            &&& after[0] is User && after[0]->User_0@.len() == 1
            &&& after[0]->User_0@[0] is Text
            &&& after[0]->User_0@[0]->Text_0@ == "[Branch context compacted: "@ + text::decimal(
                dropped as nat,
            )
                + " older messages removed to stay within context limits. Continue with the information available.]"@
        },
{
    if before.len() > 4 {
        let n = compactor::to_remove(share, before.len());
        if 0 <= i < before.len() - n {
            assert(after[i + 1] == after.skip(1)[i]);
            assert(before.skip(n as int)[i] == before[i + n]);
        }
    }
}

/// A branch concludes with what its model said last: a text that the model says on top of
/// a history is its conclusion, and what a user says changes nothing. The other text
/// stands in where the model said nothing.
pub proof fn law_conclusion_is_what_was_said_last(
    history: Seq<ChatMessage>,
    m: ChatMessage,
    s: String,
    other: Seq<char>,
)
    ensures
        m matches ChatMessage::Assistant(content) ==> (content@ == seq![
            chat::AssistantContent::Text(s),
        ] ==> said_or(history.push(m), other) == s@),
        m is User ==> said_or(history.push(m), other) == said_or(history, other),
        said_or(Seq::empty(), other) == other,
{
    chat::law_last_answer_counts(history, m, s, m);
    if let ChatMessage::Assistant(content) = m {
        if content@ == seq![chat::AssistantContent::Text(s)] {
            assert(content@[0] is Text);
        }
    }
}

} // verus!
