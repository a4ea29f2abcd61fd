//! Compactor: watches the size of a channel's context and decides when old messages
//! are summarised or dropped.
use crate::json;
use crate::json::write_json;
use crate::llm::chat;
use crate::llm::chat::{user_text, AssistantContent, ChatMessage, ToolResultPart, UserContent};
use crate::prompts::engine;
use crate::prompts::engine::{PromptEngine, PromptError};
use crate::text;
use crate::text::{cat2, cat3, find_from, slice_text, to_chars, trim_text, u64_text, utf8_len};
use vstd::prelude::*;

verus! {

/// Types of compaction actions.
#[derive(Clone, Copy, Debug, PartialEq, Eq, Structural)]
pub enum CompactionAction {
    /// Normal background compaction (~30% of oldest messages).
    Background,
    /// Aggressive compaction (~50% of oldest messages).
    Aggressive,
    /// Emergency truncation (no LLM, drop oldest 50%).
    EmergencyTruncate,
}

/// The thresholds that the use of the context has reached.
#[derive(Clone, Copy, Debug, PartialEq, Eq, Structural)]
pub struct Reached {
    pub background: bool,
    pub aggressive: bool,
    pub emergency: bool,
}

/// The action that is taken: the strongest whose threshold is reached, and none
/// while a compaction is running.
pub open spec fn action_for(is_compacting: bool, reached: Reached) -> Option<CompactionAction> {
    if is_compacting {
        None
    } else if reached.emergency {
        Some(CompactionAction::EmergencyTruncate)
    } else if reached.aggressive {
        Some(CompactionAction::Aggressive)
    } else if reached.background {
        Some(CompactionAction::Background)
    } else {
        None
    }
}

/// Decides which action is taken after a turn.
pub fn check_and_compact(is_compacting: bool, reached: Reached) -> (r: Option<CompactionAction>)
    ensures
        r == action_for(is_compacting, reached),
{
    if is_compacting {
        None
    } else if reached.emergency {
        Some(CompactionAction::EmergencyTruncate)
    } else if reached.aggressive {
        Some(CompactionAction::Aggressive)
    } else if reached.background {
        Some(CompactionAction::Background)
    } else {
        None
    }
}

/// The strongest action whose threshold is reached is taken, and none while another
/// compaction runs: an emergency is never put off for a weaker reason, and nothing is
/// done before a threshold is reached.
pub proof fn law_strongest_action_is_taken(reached: Reached)
    ensures
        action_for(true, reached) is None,
        reached.emergency ==> action_for(false, reached) == Some(
            CompactionAction::EmergencyTruncate,
        ),
        !reached.emergency && reached.aggressive ==> action_for(false, reached) == Some(
            CompactionAction::Aggressive,
        ),
        !reached.emergency && !reached.aggressive && reached.background ==> action_for(
            false,
            reached,
        ) == Some(CompactionAction::Background),
        action_for(false, reached) is None <==> !reached.emergency && !reached.aggressive
            && !reached.background,
{
}

/// As many messages are removed as the share asks for, where that leaves two and takes
/// one.
pub proof fn law_share_is_removed(share: nat, total: nat)
    requires
        1 <= share,
        share + 2 <= total,
    ensures
        to_remove(share, total) == share,
        share + 2 == total || to_remove(share, total) < to_remove(share + 1, total),
        to_remove(0, total) == 1,
        to_remove(total, total) == total - 2,
{
}

/// The percentage of the oldest messages that a compaction with a summary takes.
pub fn compaction_percent(action: CompactionAction) -> (r: usize)
    requires
        !(action is EmergencyTruncate),
    ensures
        action is Background ==> r == 30,
        action is Aggressive ==> r == 50,
{
    match action {
        CompactionAction::Background => 30,
        _ => 50,
    }
}

/// The number of messages to remove, from a share of all: at least one, and never
/// the last two.
pub open spec fn to_remove(share: nat, total: nat) -> nat {
    let wanted = if share < 1 {
        1
    } else {
        share
    };
    let most = if total >= 2 {
        (total - 2) as nat
    } else {
        0
    };
    if wanted < most {
        wanted
    } else {
        most
    }
}

/// The number of messages to remove.
pub fn removal_count(share: usize, total: usize) -> (r: usize)
    ensures
        r == to_remove(share as nat, total as nat),
{
    let wanted: usize = if share < 1 {
        1
    } else {
        share
    };
    let most: usize = if total >= 2 {
        total - 2
    } else {
        0
    };
    if wanted < most {
        wanted
    } else {
        most
    }
}

/// Removing messages leaves at least two where there were as many.
pub proof fn law_last_messages_are_kept(share: nat, total: nat)
    ensures
        to_remove(share, total) <= total,
        total >= 2 ==> total - to_remove(share, total) >= 2,
        total > 2 ==> to_remove(share, total) > 0,
        total <= 2 ==> to_remove(share, total) == 0,
{
}

/// Takes the oldest messages out of a history.
pub fn take_oldest(history: &mut Vec<ChatMessage>, count: usize) -> (r: Vec<ChatMessage>)
    requires
        count <= old(history)@.len(),
    ensures
        r@ == old(history)@.take(count as int),
        final(history)@ == old(history)@.skip(count as int),
{
    let mut rest = history.split_off(count);
    std::mem::swap(history, &mut rest);
    assert(rest@ =~= old(history)@.take(count as int));
    assert(history@ =~= old(history)@.skip(count as int));
    rest
}

/// Puts a message before a history.
pub fn put_first(history: &mut Vec<ChatMessage>, s: String)
    ensures
        final(history)@.len() == old(history)@.len() + 1,
        final(history)@[0] is User,
        final(history)@[0]->User_0@ == seq![UserContent::Text(s)],
        final(history)@.skip(1) == old(history)@,
{
    let m = user_text(s);
    history.insert(0, m);
    assert(history@.skip(1) =~= old(history)@);
}

/// Takes the messages that a compaction summarises out of a history: none where
/// too few are left.
pub fn start_compaction(history: &mut Vec<ChatMessage>, share: usize) -> (r: Option<
    Vec<ChatMessage>,
>)
    ensures
        ({
            let n = to_remove(share as nat, old(history)@.len()) as int;
            if n == 0 {
                r is None && *final(history) == *old(history)
            } else {
                r is Some && r->0@ == old(history)@.take(n) && final(history)@ == old(
                    history)@.skip(n)
            }
        }),
{
    let n: usize = removal_count(share, history.len());
    if n == 0 {
        None
    } else {
        Some(take_oldest(history, n))
    }
}

/// The summary that a compaction puts in place of messages, from the answer of a
/// model, where there is one.
pub fn compaction_summary(answer: &Option<String>, removed: usize) -> (r: String)
    ensures
        r@ == "[Compaction Summary]: "@ + (match answer {
            Some(s) => summary_section(s@),
            None => "[Compaction summary of "@ + text::decimal(removed as nat)
                + " messages — LLM summarization failed]"@,
        }),
{
    let summary = match answer {
        Some(s) => extract_summary_section(s.as_str()),
        None => {
            let n = u64_text(removed as u64);
            cat3(
                "[Compaction summary of ",
                n.as_str(),
                " messages — LLM summarization failed]",
            )
        },
    };
    cat2("[Compaction Summary]: ", summary.as_str())
}

/// The number of messages that an emergency truncation drops: the oldest half, none
/// where there are at most two.
pub open spec fn truncated_count(total: nat) -> nat {
    if total <= 2 {
        0
    } else {
        total / 2
    }
}

/// The number of messages that an emergency truncation drops.
pub fn truncation_count(total: usize) -> (r: usize)
    ensures
        r == truncated_count(total as nat),
{
    if total <= 2 {
        0
    } else {
        total / 2
    }
}

/// `after` is a history whose oldest messages gave way to a marker.
pub open spec fn is_truncated(
    before: Seq<ChatMessage>,
    after: Seq<ChatMessage>,
    n: nat,
    marker: String,
) -> bool {
    &&& after.len() == before.len() - n + 1
    &&& after.skip(1) == before.skip(n as int)
    &&& after[0] is User
    &&& after[0]->User_0@ == seq![UserContent::Text(marker)]
}

/// A rendering of the marker that stands for a number of removed messages.
pub open spec fn is_marker(
    prompts: PromptEngine,
    removed: nat,
    r: Result<String, PromptError>,
) -> bool {
    engine::answers(
        r,
        prompts.templates(),
        "fragments/system/truncation"@,
        Some(seq![("remove_count"@, engine::VarView::Count(removed))]),
    )
}

/// Emergency truncation: drop oldest messages without LLM summarization.
///
/// Removes the oldest half of messages and inserts a marker, which is rendered from
/// their number. A history of at most two messages stays as it is, and so does one
/// whose marker cannot be rendered.
pub fn emergency_truncate(history: &mut Vec<ChatMessage>, prompts: &PromptEngine) -> (r: Result<
    (),
    PromptError,
>)
    ensures
        ({
            let n = truncated_count(old(history)@.len());
            if n == 0 {
                r is Ok && *final(history) == *old(history)
            } else {
                match r {
                    Ok(_) => exists|marker: String| #[trigger]
                        is_marker(*prompts, n, Ok(marker)) && is_truncated(
                            old(history)@,
                            final(history)@,
                            n,
                            marker,
                        ),
                    Err(e) => is_marker(*prompts, n, Err(e)) && *final(history) == *old(history),
                }
            }
        }),
{
    let n: usize = truncation_count(history.len());
    if n == 0 {
        return Ok(());
    }
    match prompts.render_system_truncation(n) {
        Ok(marker) => {
            assert(is_marker(*prompts, n as nat, Ok(marker)));
            let _removed = take_oldest(history, n);
            put_first(history, marker);
            Ok(())
        },
        Err(e) => Err(e),
    }
}

/// Emergency truncation makes a history of more than two messages no longer, and
/// shorter where there are at least four.
pub proof fn law_truncation_shrinks(total: nat)
    requires
        total > 2,
    ensures
        total - truncated_count(total) + 1 <= total,
        total >= 4 ==> total - truncated_count(total) + 1 < total,
{
}

/// Emergency truncation drops the older half: never more messages than it keeps, and at
/// most one less.
pub proof fn law_truncation_drops_half(total: nat)
    requires
        total > 2,
    ensures
        2 * truncated_count(total) <= total,
        total <= 2 * truncated_count(total) + 1,
        truncated_count(2) == 0,
        truncated_count(1) == 0,
        truncated_count(0) == 0,
{
}

// ---------------------------------------------------------------------------
// The size of a history
// ---------------------------------------------------------------------------

/// The characters of a part of a tool's result.
pub open spec fn part_chars(p: ToolResultPart) -> nat {
    match p {
        ToolResultPart::Text(s) => text::byte_len(s@),
        ToolResultPart::Image => 100,
    }
}

/// The characters of a tool's result.
pub open spec fn parts_chars(parts: Seq<ToolResultPart>) -> nat
    decreases parts.len(),
{
    if parts.len() == 0 {
        0
    } else {
        parts_chars(parts.drop_last()) + part_chars(parts.last())
    }
}

/// The characters of what a user says.
pub open spec fn user_chars(c: UserContent) -> nat {
    match c {
        UserContent::Text(s) => text::byte_len(s@),
        UserContent::ToolResult(r) => parts_chars(r.parts@),
        UserContent::Image => 500,
        UserContent::Audio => 500,
        UserContent::Video => 500,
        UserContent::Document => 1000,
    }
}

/// The characters of some texts.
pub open spec fn texts_chars(v: Seq<String>) -> nat
    decreases v.len(),
{
    if v.len() == 0 {
        0
    } else {
        texts_chars(v.drop_last()) + text::byte_len(v.last()@)
    }
}

/// The characters of what a model says.
pub open spec fn assistant_chars(c: AssistantContent) -> nat {
    match c {
        AssistantContent::Text(s) => text::byte_len(s@),
        AssistantContent::ToolCall(t) => text::byte_len(t.name@) + text::byte_len(
            json::json_text(t.arguments),
        ),
        AssistantContent::Reasoning(v) => texts_chars(v@),
        AssistantContent::Image => 500,
    }
}

/// The characters of a message of a user.
pub open spec fn user_message_chars(content: Seq<UserContent>) -> nat
    decreases content.len(),
{
    if content.len() == 0 {
        0
    } else {
        user_message_chars(content.drop_last()) + user_chars(content.last())
    }
}

/// The characters of a message of a model.
pub open spec fn assistant_message_chars(content: Seq<AssistantContent>) -> nat
    decreases content.len(),
{
    if content.len() == 0 {
        0
    } else {
        assistant_message_chars(content.drop_last()) + assistant_chars(content.last())
    }
}

/// The characters of a message.
pub open spec fn message_chars(m: ChatMessage) -> nat {
    match m {
        ChatMessage::User(content) => user_message_chars(content@),
        ChatMessage::Assistant(content) => assistant_message_chars(content@),
    }
}

/// The characters of a history.
pub open spec fn history_chars(history: Seq<ChatMessage>) -> nat
    decreases history.len(),
{
    if history.len() == 0 {
        0
    } else {
        history_chars(history.drop_last()) + message_chars(history.last())
    }
}

/// The first messages have no more characters than all.
proof fn lemma_history_chars(history: Seq<ChatMessage>, i: int)
    requires
        0 <= i <= history.len(),
    ensures
        history_chars(history.take(i)) <= history_chars(history),
    decreases history.len() - i,
{
    if i < history.len() {
        assert(history.take(i + 1).drop_last() =~= history.take(i));
        lemma_history_chars(history, i + 1);
    } else {
        assert(history.take(i) =~= history);
    }
}

/// The first parts have no more characters than all.
proof fn lemma_user_message_chars(content: Seq<UserContent>, i: int)
    requires
        0 <= i <= content.len(),
    ensures
        user_message_chars(content.take(i)) <= user_message_chars(content),
    decreases content.len() - i,
{
    if i < content.len() {
        assert(content.take(i + 1).drop_last() =~= content.take(i));
        lemma_user_message_chars(content, i + 1);
    } else {
        assert(content.take(i) =~= content);
    }
}

/// The first parts have no more characters than all.
proof fn lemma_assistant_message_chars(content: Seq<AssistantContent>, i: int)
    requires
        0 <= i <= content.len(),
    ensures
        assistant_message_chars(content.take(i)) <= assistant_message_chars(content),
    decreases content.len() - i,
{
    if i < content.len() {
        assert(content.take(i + 1).drop_last() =~= content.take(i));
        lemma_assistant_message_chars(content, i + 1);
    } else {
        assert(content.take(i) =~= content);
    }
}

/// The first parts have no more characters than all.
proof fn lemma_parts_chars(parts: Seq<ToolResultPart>, i: int)
    requires
        0 <= i <= parts.len(),
    ensures
        parts_chars(parts.take(i)) <= parts_chars(parts),
    decreases parts.len() - i,
{
    if i < parts.len() {
        assert(parts.take(i + 1).drop_last() =~= parts.take(i));
        lemma_parts_chars(parts, i + 1);
    } else {
        assert(parts.take(i) =~= parts);
    }
}

/// The first texts have no more characters than all.
proof fn lemma_texts_chars(v: Seq<String>, i: int)
    requires
        0 <= i <= v.len(),
    ensures
        texts_chars(v.take(i)) <= texts_chars(v),
    decreases v.len() - i,
{
    if i < v.len() {
        assert(v.take(i + 1).drop_last() =~= v.take(i));
        lemma_texts_chars(v, i + 1);
    } else {
        assert(v.take(i) =~= v);
    }
}

/// A number, where it fits into a machine word.
pub open spec fn counted(n: nat) -> Option<usize> {
    if n <= usize::MAX {
        Some(n as usize)
    } else {
        None
    }
}

/// Counts the characters of what a user says, as far as they can be counted.
fn count_user_chars(c: &UserContent) -> (r: Option<usize>)
    ensures
        r == counted(user_chars(*c)),
{
    match c {
        UserContent::Text(s) => Some(utf8_len(s.as_str())),
        UserContent::ToolResult(t) => {
            let parts = &t.parts;
            let n: usize = parts.len();
            let mut size: usize = 0;
            let mut i: usize = 0;
            while i < n
                invariant
                    n == parts@.len(),
                    i <= n,
                    size == parts_chars(parts@.take(i as int)),
                    user_chars(*c) == parts_chars(parts@),
                decreases n - i,
            {
                proof {
                    assert(parts@.take(i + 1).drop_last() =~= parts@.take(i as int));
                    assert(parts@.take(i + 1).last() == parts@[i as int]);
                    lemma_parts_chars(parts@, i + 1);
                }
                let more: usize = match &parts[i] {
                    ToolResultPart::Text(s) => utf8_len(s.as_str()),
                    ToolResultPart::Image => 100,
                };
                match size.checked_add(more) {
                    Some(sum) => {
                        size = sum;
                    },
                    None => {
                        return None;
                    },
                }
                i = i + 1;
            }
            assert(parts@.take(n as int) =~= parts@);
            Some(size)
        },
        UserContent::Image => Some(500),
        UserContent::Audio => Some(500),
        UserContent::Video => Some(500),
        UserContent::Document => Some(1000),
    }
}

/// Counts the characters of what a model says, as far as they can be counted.
fn count_assistant_chars(c: &AssistantContent) -> (r: Option<usize>)
    ensures
        r == counted(assistant_chars(*c)),
{
    match c {
        AssistantContent::Text(s) => Some(utf8_len(s.as_str())),
        AssistantContent::ToolCall(t) => {
            let args = write_json(&t.arguments);
            utf8_len(t.name.as_str()).checked_add(utf8_len(args.as_str()))
        },
        AssistantContent::Reasoning(v) => {
            let n: usize = v.len();
            let mut size: usize = 0;
            let mut i: usize = 0;
            while i < n
                invariant
                    n == v@.len(),
                    i <= n,
                    size == texts_chars(v@.take(i as int)),
                    assistant_chars(*c) == texts_chars(v@),
                decreases n - i,
            {
                proof {
                    assert(v@.take(i + 1).drop_last() =~= v@.take(i as int));
                    assert(v@.take(i + 1).last() == v@[i as int]);
                    lemma_texts_chars(v@, i + 1);
                }
                match size.checked_add(utf8_len(v[i].as_str())) {
                    Some(sum) => {
                        size = sum;
                    },
                    None => {
                        return None;
                    },
                }
                i = i + 1;
            }
            assert(v@.take(n as int) =~= v@);
            Some(size)
        },
        AssistantContent::Image => Some(500),
    }
}

/// Counts the characters of a message, as far as they can be counted.
fn count_message_chars(message: &ChatMessage) -> (r: Option<usize>)
    ensures
        r == counted(message_chars(*message)),
{
    let mut size: usize = 0;
    let mut j: usize = 0;
    match message {
        ChatMessage::User(content) => {
            let m: usize = content.len();
            while j < m
                invariant
                    m == content@.len(),
                    j <= m,
                    size == user_message_chars(content@.take(j as int)),
                    message_chars(*message) == user_message_chars(content@),
                decreases m - j,
            {
                proof {
                    assert(content@.take(j + 1).drop_last() =~= content@.take(j as int));
                    assert(content@.take(j + 1).last() == content@[j as int]);
                    lemma_user_message_chars(content@, j + 1);
                }
                match count_user_chars(&content[j]) {
                    Some(more) => match size.checked_add(more) {
                        Some(sum) => {
                            size = sum;
                        },
                        None => {
                            return None;
                        },
                    },
                    None => {
                        return None;
                    },
                }
                j = j + 1;
            }
            assert(content@.take(m as int) =~= content@);
        },
        ChatMessage::Assistant(content) => {
            let m: usize = content.len();
            while j < m
                invariant
                    m == content@.len(),
                    j <= m,
                    size == assistant_message_chars(content@.take(j as int)),
                    message_chars(*message) == assistant_message_chars(content@),
                decreases m - j,
            {
                proof {
                    assert(content@.take(j + 1).drop_last() =~= content@.take(j as int));
                    assert(content@.take(j + 1).last() == content@[j as int]);
                    lemma_assistant_message_chars(content@, j + 1);
                }
                match count_assistant_chars(&content[j]) {
                    Some(more) => match size.checked_add(more) {
                        Some(sum) => {
                            size = sum;
                        },
                        None => {
                            return None;
                        },
                    },
                    None => {
                        return None;
                    },
                }
                j = j + 1;
            }
            assert(content@.take(m as int) =~= content@);
        },
    }
    Some(size)
}

/// Counts the characters of a history, as far as they can be counted.
pub fn count_history_chars(history: &Vec<ChatMessage>) -> (r: Option<usize>)
    ensures
        r == counted(history_chars(history@)),
{
    let n: usize = history.len();
    let mut chars: usize = 0;
    let mut i: usize = 0;
    while i < n
        invariant
            n == history@.len(),
            i <= n,
            chars == history_chars(history@.take(i as int)),
        decreases n - i,
    {
        proof {
            assert(history@.take(i + 1).drop_last() =~= history@.take(i as int));
            assert(history@.take(i + 1).last() == history@[i as int]);
            lemma_history_chars(history@, i + 1);
        }
        match count_message_chars(&history[i]) {
            Some(more) => match chars.checked_add(more) {
                Some(sum) => {
                    chars = sum;
                },
                None => {
                    return None;
                },
            },
            None => {
                return None;
            },
        }
        i = i + 1;
    }
    assert(history@.take(n as int) =~= history@);
    Some(chars)
}

/// Estimate token count for a history: a quarter of its characters, rounded down.
/// It is none for a history whose characters cannot be counted.
///
/// This is intentionally rough. It is only used for threshold checks.
pub fn estimate_history_tokens(history: &Vec<ChatMessage>) -> (r: Option<usize>)
    ensures
        match r {
            Some(tokens) => history_chars(history@) <= usize::MAX && tokens == history_chars(
                history@,
            ) / 4,
            None => history_chars(history@) > usize::MAX,
        },
{
    match count_history_chars(history) {
        Some(chars) => Some(chars / 4),
        None => None,
    }
}

/// A longer history has no smaller estimate.
pub proof fn law_estimate_grows(history: Seq<ChatMessage>, i: int)
    requires
        0 <= i <= history.len(),
    ensures
        history_chars(history.take(i)) / 4 <= history_chars(history) / 4,
{
    lemma_history_chars(history, i);
}

/// A message that a part was added to at the end.
pub open spec fn grown(
    before: ChatMessage,
    after: ChatMessage,
    user: UserContent,
    assistant: AssistantContent,
) -> bool {
    match before {
        ChatMessage::User(b) => after is User && after->User_0@ == b@.push(user),
        ChatMessage::Assistant(b) => after is Assistant && after->Assistant_0@ == b@.push(assistant),
    }
}

/// The characters of a history with one message replaced.
proof fn lemma_history_update(history: Seq<ChatMessage>, i: int, m: ChatMessage)
    requires
        0 <= i < history.len(),
    ensures
        history_chars(history.update(i, m)) == history_chars(history) - message_chars(history[i])
            + message_chars(m),
    decreases history.len(),
{
    let after = history.update(i, m);
    if i == history.len() - 1 {
        assert(after.drop_last() =~= history.drop_last());
    } else {
        assert(after.drop_last() =~= history.drop_last().update(i, m));
        lemma_history_update(history.drop_last(), i, m);
    }
}

/// A text counts with its bytes, whoever said it and wherever it stands: one more text
/// in any message of a history adds exactly its bytes to what is counted.
pub proof fn law_texts_count_with_their_bytes(
    history: Seq<ChatMessage>,
    i: int,
    m: ChatMessage,
    s: String,
)
    requires
        0 <= i < history.len(),
        grown(history[i], m, UserContent::Text(s), AssistantContent::Text(s)),
    ensures
        history_chars(history.update(i, m)) == history_chars(history) + text::byte_len(s@),
{
    lemma_history_update(history, i, m);
    match (history[i], m) {
        (ChatMessage::User(b), ChatMessage::User(a)) => {
            assert(a@.drop_last() =~= b@);
        },
        (ChatMessage::Assistant(b), ChatMessage::Assistant(a)) => {
            assert(a@.drop_last() =~= b@);
        },
        _ => {},
    }
}

/// What other parts count: media a fixed number of characters, a call its name and its
/// arguments, the result of a tool and reasoning what their parts hold.
pub proof fn law_parts_count(
    history: Seq<ChatMessage>,
    i: int,
    m: ChatMessage,
    user: UserContent,
    assistant: AssistantContent,
)
    requires
        0 <= i < history.len(),
        grown(history[i], m, user, assistant),
    ensures
        ({
            let more = history_chars(history.update(i, m)) - history_chars(history);
            if m is User {
                match user {
                    UserContent::Text(s) => more == text::byte_len(s@),
                    UserContent::ToolResult(r) => more == parts_chars(r.parts@),
                    UserContent::Document => more == 1000,
                    _ => more == 500,
                }
            } else {
                match assistant {
                    AssistantContent::Text(s) => more == text::byte_len(s@),
                    AssistantContent::ToolCall(c) => more == text::byte_len(c.name@)
                        + text::byte_len(json::json_text(c.arguments)),
                    AssistantContent::Reasoning(v) => more == texts_chars(v@),
                    AssistantContent::Image => more == 500,
                }
            }
        }),
{
    lemma_history_update(history, i, m);
    match (history[i], m) {
        (ChatMessage::User(b), ChatMessage::User(a)) => {
            assert(a@.drop_last() =~= b@);
        },
        (ChatMessage::Assistant(b), ChatMessage::Assistant(a)) => {
            assert(a@.drop_last() =~= b@);
        },
        _ => {},
    }
}

/// The result of a tool counts the bytes of its texts and a hundred for each image;
/// reasoning counts the bytes of its texts.
pub proof fn law_results_and_reasoning_count(
    parts: Seq<ToolResultPart>,
    p: ToolResultPart,
    v: Seq<String>,
    s: String,
)
    ensures
        parts_chars(Seq::empty()) == 0,
        parts_chars(parts.push(p)) == parts_chars(parts) + (match p {
            ToolResultPart::Text(t) => text::byte_len(t@),
            ToolResultPart::Image => 100,
        }),
        texts_chars(Seq::empty()) == 0,
        texts_chars(v.push(s)) == texts_chars(v) + text::byte_len(s@),
{
    assert(parts.push(p).drop_last() =~= parts);
    assert(v.push(s).drop_last() =~= v);
}

/// A history counts as much as its messages together, in whatever order: it can be cut
/// anywhere, and a message that holds nothing counts nothing.
pub proof fn law_history_counts_its_messages(a: Seq<ChatMessage>, b: Seq<ChatMessage>)
    ensures
        history_chars(Seq::empty()) == 0,
        history_chars(a + b) == history_chars(a) + history_chars(b),
        a.len() == 1 ==> history_chars(a) == message_chars(a[0]),
        a.len() == 1 && a[0] is User && a[0]->User_0@.len() == 0 ==> history_chars(a) == 0,
        a.len() == 1 && a[0] is Assistant && a[0]->Assistant_0@.len() == 0 ==> history_chars(a)
            == 0,
    decreases b.len(),
{
    if b.len() == 0 {
        assert(a + b =~= a);
    } else {
        law_history_counts_its_messages(a, b.drop_last());
        assert((a + b).drop_last() =~= a + b.drop_last());
    }
    if a.len() == 1 {
        assert(a.drop_last() =~= Seq::<ChatMessage>::empty());
        assert(history_chars(a.drop_last()) == 0);
    }
}

// ---------------------------------------------------------------------------
// Transcripts
// ---------------------------------------------------------------------------

/// What a user says, in a transcript.
pub open spec fn user_line(c: UserContent) -> Seq<char> {
    match c {
        UserContent::Text(s) => "User: "@ + s@ + seq!['\n'],
        UserContent::ToolResult(r) => "[Tool Result]: "@ + text::join(
            chat::part_texts(r.parts@),
            Seq::empty(),
        ) + seq!['\n'],
        _ => Seq::empty(),
    }
}

/// What a model says, in a transcript.
pub open spec fn assistant_line(c: AssistantContent) -> Seq<char> {
    match c {
        AssistantContent::Text(s) => "Assistant: "@ + s@ + seq!['\n'],
        AssistantContent::ToolCall(t) => "[Tool Call: "@ + t.name@ + "("@ + json::json_text(
            t.arguments,
        ) + ")]\n"@,
        _ => Seq::empty(),
    }
}

/// A message of a user, in a transcript.
pub open spec fn user_lines(content: Seq<UserContent>) -> Seq<char>
    decreases content.len(),
{
    if content.len() == 0 {
        Seq::empty()
    } else {
        user_lines(content.drop_last()) + user_line(content.last())
    }
}

/// A message of a model, in a transcript.
pub open spec fn assistant_lines(content: Seq<AssistantContent>) -> Seq<char>
    decreases content.len(),
{
    if content.len() == 0 {
        Seq::empty()
    } else {
        assistant_lines(content.drop_last()) + assistant_line(content.last())
    }
}

/// The transcript of messages.
pub open spec fn transcript(messages: Seq<ChatMessage>) -> Seq<char>
    decreases messages.len(),
{
    if messages.len() == 0 {
        Seq::empty()
    } else {
        transcript(messages.drop_last()) + (match messages.last() {
            ChatMessage::User(content) => user_lines(content@),
            ChatMessage::Assistant(content) => assistant_lines(content@),
        })
    }
}

/// Writes a message of a user into a transcript.
fn push_user(out: &mut String, content: &Vec<UserContent>)
    ensures
        final(out)@ == old(out)@ + user_lines(content@),
{
    let ghost before = out@;
    let n: usize = content.len();
    let mut i: usize = 0;
    assert(before + user_lines(content@.take(0)) =~= before);
    while i < n
        invariant
            n == content@.len(),
            i <= n,
            out@ == before + user_lines(content@.take(i as int)),
        decreases n - i,
    {
        proof {
            assert(content@.take(i + 1).drop_last() =~= content@.take(i as int));
            assert(content@.take(i + 1).last() == content@[i as int]);
        }
        match &content[i] {
            UserContent::Text(s) => {
                out.append("User: ");
                out.append(s.as_str());
                out.push('\n');
            },
            UserContent::ToolResult(t) => {
                let texts = chat::collect_part_texts(&t.parts);
                let joined = text::join_texts(&texts, "");
                proof {
                    reveal_strlit("");
                    assert(""@ =~= Seq::<char>::empty());
                }
                out.append("[Tool Result]: ");
                out.append(joined.as_str());
                out.push('\n');
            },
            _ => {},
        }
        assert(out@ =~= before + user_lines(content@.take(i + 1)));
        i = i + 1;
    }
    assert(content@.take(n as int) =~= content@);
}

/// Writes a message of a model into a transcript.
fn push_assistant(out: &mut String, content: &Vec<AssistantContent>)
    ensures
        final(out)@ == old(out)@ + assistant_lines(content@),
{
    let ghost before = out@;
    let n: usize = content.len();
    let mut i: usize = 0;
    assert(before + assistant_lines(content@.take(0)) =~= before);
    while i < n
        invariant
            n == content@.len(),
            i <= n,
            out@ == before + assistant_lines(content@.take(i as int)),
        decreases n - i,
    {
        proof {
            assert(content@.take(i + 1).drop_last() =~= content@.take(i as int));
            assert(content@.take(i + 1).last() == content@[i as int]);
        }
        match &content[i] {
            AssistantContent::Text(s) => {
                out.append("Assistant: ");
                out.append(s.as_str());
                out.push('\n');
            },
            AssistantContent::ToolCall(t) => {
                let args = write_json(&t.arguments);
                out.append("[Tool Call: ");
                out.append(t.name.as_str());
                out.append("(");
                out.append(args.as_str());
                out.append(")]\n");
            },
            _ => {},
        }
        assert(out@ =~= before + assistant_lines(content@.take(i + 1)));
        i = i + 1;
    }
    assert(content@.take(n as int) =~= content@);
}

/// Render messages into a human-readable transcript.
pub fn render_messages_as_transcript(messages: &Vec<ChatMessage>) -> (r: String)
    ensures
        r@ == transcript(messages@),
{
    let mut out = String::new();
    let n: usize = messages.len();
    let mut i: usize = 0;
    assert(out@ =~= Seq::<char>::empty());
    while i < n
        invariant
            n == messages@.len(),
            i <= n,
            out@ == transcript(messages@.take(i as int)),
        decreases n - i,
    {
        proof {
            assert(messages@.take(i + 1).drop_last() =~= messages@.take(i as int));
            assert(messages@.take(i + 1).last() == messages@[i as int]);
        }
        match &messages[i] {
            ChatMessage::User(content) => {
                push_user(&mut out, content);
            },
            ChatMessage::Assistant(content) => {
                push_assistant(&mut out, content);
            },
        }
        i = i + 1;
    }
    assert(messages@.take(n as int) =~= messages@);
    out
}

/// A transcript says what the messages say, one part on a line of its own, with who
/// said it. Parts that are no texts, calls or results of tools are left out.
pub proof fn law_transcript_says_what_was_said(
    said: Seq<UserContent>,
    u: UserContent,
    answered: Seq<AssistantContent>,
    a: AssistantContent,
)
    ensures
        user_lines(Seq::empty()).len() == 0,
        assistant_lines(Seq::empty()).len() == 0,
        user_lines(said.push(u)) == user_lines(said) + (match u {
            UserContent::Text(s) => "User: "@ + s@ + "\n"@,
            UserContent::ToolResult(r) => "[Tool Result]: "@ + text::join(
                chat::part_texts(r.parts@),
                ""@,
            ) + "\n"@,
            _ => ""@,
        }),
        assistant_lines(answered.push(a)) == assistant_lines(answered) + (match a {
            AssistantContent::Text(s) => "Assistant: "@ + s@ + "\n"@,
            AssistantContent::ToolCall(c) => "[Tool Call: "@ + c.name@ + "("@ + json::json_text(
                c.arguments,
            ) + ")]\n"@,
            _ => ""@,
        }),
{
    reveal_strlit("\n");
    reveal_strlit("");
    assert("\n"@ =~= seq!['\n']);
    assert(""@ =~= Seq::<char>::empty());
    assert(said.push(u).drop_last() =~= said);
    assert(answered.push(a).drop_last() =~= answered);
}

/// The transcript of a conversation is that of its messages, one after the other.
pub proof fn law_transcript_in_order(a: Seq<ChatMessage>, b: Seq<ChatMessage>)
    ensures
        transcript(a + b) == transcript(a) + transcript(b),
        a.len() == 1 && a[0] is User ==> transcript(a) == user_lines(a[0]->User_0@),
        a.len() == 1 && a[0] is Assistant ==> transcript(a) == assistant_lines(
            a[0]->Assistant_0@,
        ),
    decreases b.len(),
{
    if b.len() == 0 {
        assert(a + b =~= a);
        assert(transcript(a) + transcript(b) =~= transcript(a));
    } else {
        law_transcript_in_order(a, b.drop_last());
        assert((a + b).drop_last() =~= a + b.drop_last());
        assert(transcript(a + b) =~= transcript(a) + transcript(b));
    }
    if a.len() == 1 {
        assert(a.drop_last() =~= Seq::<ChatMessage>::empty());
        assert(transcript(a.drop_last()) =~= Seq::<char>::empty());
        match a[0] {
            ChatMessage::User(content) => {
                assert(transcript(a) =~= user_lines(content@));
            },
            ChatMessage::Assistant(content) => {
                assert(transcript(a) =~= assistant_lines(content@));
            },
        }
    }
}

/// The summary in an answer: what follows a `## Summary` header, or all of it,
/// without the white space around.
pub open spec fn summary_section(response: Seq<char>) -> Seq<char> {
    match text::first_at(response, "## Summary"@, 0) {
        Some(i) => text::trim(response.skip(i as int + 10)),
        None => text::trim(response),
    }
}

/// Extract the summary from the answer of the compaction model.
///
/// The prompt asks for plain summary text. If the model wraps it in a `## Summary`
/// header anyway, it is stripped.
pub fn extract_summary_section(response: &str) -> (r: String)
    ensures
        r@ == summary_section(response@),
{
    let v = to_chars(response);
    let n: usize = v.len();
    let header = to_chars("## Summary");
    proof {
        reveal_strlit("## Summary");
    }
    match find_from(&v, &header, 0) {
        Some(i) => {
            proof {
                text::lemma_first_at(response@, "## Summary"@, 0, Some(i as nat));
                assert(response@.skip(i as int + 10) =~= v@.subrange(
                    i as int + 10,
                    v@.len() as int,
                ));
            }
            assert(i + 10 <= n);
            let rest = slice_text(&v, i + 10, n);
            trim_text(rest.as_str())
        },
        None => {
            proof {
                text::lemma_first_at(response@, "## Summary"@, 0, None);
            }
            trim_text(response)
        },
    }
}

/// A summary is found behind its header, and all of an answer without a header is one.
/// The white space around it is dropped.
pub proof fn law_summary_is_what_follows_the_header(before: Seq<char>, summary: Seq<char>)
    requires
        text::first_at(before + "## Summary"@ + summary, "## Summary"@, 0) == Some(before.len()),
        summary.len() > 0,
        !text::is_space(summary[0]),
        !text::is_space(summary.last()),
    ensures
        summary_section(before + "## Summary"@ + summary) == summary,
        !text::has_text(summary, "## Summary"@) ==> summary_section(summary) == summary,
{
    reveal_strlit("## Summary");
    let all = before + "## Summary"@ + summary;
    assert(all.skip(before.len() as int + 10) =~= summary);
    if !text::has_text(summary, "## Summary"@) {
        text::lemma_first_at(summary, "## Summary"@, 0, None);
    }
}

} // verus!
