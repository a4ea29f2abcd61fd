//! What was said and done in a channel, in the order of time.
use crate::conversation::channels;
use crate::conversation::channels::text_or_empty;
use crate::message::Timestamp;
use crate::outside;
use crate::outside::{write_opt_stamp, write_stamp};
use crate::text;
use crate::text::str_eq;
use vstd::prelude::*;

verus! {

/// A persisted conversation message.
pub struct ConversationMessage {
    pub id: String,
    pub channel_id: String,
    pub role: String,
    pub sender_name: Option<String>,
    pub sender_id: Option<String>,
    pub content: String,
    pub metadata: Option<String>,
    pub created_at: Timestamp,
}

/// A message as it is stored. A column that cannot be read is none.
pub struct MessageRow {
    pub id: Option<String>,
    pub channel_id: Option<String>,
    pub role: Option<String>,
    pub sender_name: Option<String>,
    pub sender_id: Option<String>,
    pub content: Option<String>,
    pub metadata: Option<String>,
    pub created_at: Option<Timestamp>,
}

/// `r` is the message that a row stands for, read at a point in time.
pub open spec fn message_from(row: MessageRow, now: Timestamp, r: ConversationMessage) -> bool {
    &&& r.id@ == channels::or_empty(row.id)
    &&& r.channel_id@ == channels::or_empty(row.channel_id)
    &&& r.role@ == channels::or_empty(row.role)
    &&& r.sender_name == row.sender_name
    &&& r.sender_id == row.sender_id
    &&& r.content@ == channels::or_empty(row.content)
    &&& r.metadata == row.metadata
    &&& r.created_at == row.created_at.unwrap_or(now)
}

fn row_to_message(row: MessageRow, now: Timestamp) -> (r: ConversationMessage)
    ensures
        message_from(row, now, r),
{
    ConversationMessage {
        id: text_or_empty(row.id),
        channel_id: text_or_empty(row.channel_id),
        role: text_or_empty(row.role),
        sender_name: row.sender_name,
        sender_id: row.sender_id,
        content: text_or_empty(row.content),
        metadata: row.metadata,
        created_at: row.created_at.unwrap_or(now),
    }
}

/// The recent messages of a channel, oldest first, from rows that come newest
/// first.
pub fn recent_messages(rows: Vec<MessageRow>, now: Timestamp) -> (r: Vec<ConversationMessage>)
    ensures
        r@.len() == rows@.len(),
        forall|i: int|
            0 <= i < r@.len() ==> message_from(rows@[rows@.len() - 1 - i], now, #[trigger] r@[i]),
{
    let mut rows = rows;
    let ghost all = rows@;
    let mut out: Vec<ConversationMessage> = Vec::new();
    while rows.len() > 0
        invariant
            rows@.len() + out@.len() == all.len(),
            rows@ == all.take(rows@.len() as int),
            forall|i: int|
                0 <= i < out@.len() ==> message_from(all[all.len() - 1 - i], now, #[trigger] out@[i]),
        decreases rows@.len(),
    {
        let ghost n = rows@.len() as int;
        let row = rows.pop().unwrap();
        proof {
            assert(row == all[n - 1]);
            assert(rows@ =~= all.take(n - 1));
        }
        out.push(row_to_message(row, now));
    }
    out
}

/// A unified timeline item combining messages, branch runs, and worker runs.
pub enum TimelineItem {
    Message {
        id: String,
        role: String,
        sender_name: Option<String>,
        sender_id: Option<String>,
        content: String,
        created_at: String,
    },
    BranchRun {
        id: String,
        description: String,
        conclusion: Option<String>,
        started_at: String,
        completed_at: Option<String>,
    },
    WorkerRun {
        id: String,
        task: String,
        result: Option<String>,
        status: String,
        started_at: String,
        completed_at: Option<String>,
    },
}

/// What a [`TimelineItem`] says.
pub enum TimelineView {
    Message {
        id: Seq<char>,
        role: Seq<char>,
        sender_name: Option<Seq<char>>,
        sender_id: Option<Seq<char>>,
        content: Seq<char>,
        created_at: Seq<char>,
    },
    BranchRun {
        id: Seq<char>,
        description: Seq<char>,
        conclusion: Option<Seq<char>>,
        started_at: Seq<char>,
        completed_at: Option<Seq<char>>,
    },
    WorkerRun {
        id: Seq<char>,
        task: Seq<char>,
        result: Option<Seq<char>>,
        status: Seq<char>,
        started_at: Seq<char>,
        completed_at: Option<Seq<char>>,
    },
}

impl View for TimelineItem {
    type V = TimelineView;

    open spec fn view(&self) -> TimelineView {
        match *self {
            TimelineItem::Message { id, role, sender_name, sender_id, content, created_at } =>
                TimelineView::Message {
                id: id@,
                role: role@,
                sender_name: text::opt_text(sender_name),
                sender_id: text::opt_text(sender_id),
                content: content@,
                created_at: created_at@,
            },
            TimelineItem::BranchRun { id, description, conclusion, started_at, completed_at } =>
                TimelineView::BranchRun {
                id: id@,
                description: description@,
                conclusion: text::opt_text(conclusion),
                started_at: started_at@,
                completed_at: text::opt_text(completed_at),
            },
            TimelineItem::WorkerRun { id, task, result, status, started_at, completed_at } =>
                TimelineView::WorkerRun {
                id: id@,
                task: task@,
                result: text::opt_text(result),
                status: status@,
                started_at: started_at@,
                completed_at: text::opt_text(completed_at),
            },
        }
    }
}

/// What a timeline says.
pub open spec fn timeline_views(v: Seq<TimelineItem>) -> Seq<TimelineView> {
    Seq::new(v.len(), |i: int| v[i]@)
}

/// A row of the timeline query. A column that cannot be read is none.
pub struct TimelineRow {
    pub item_type: Option<String>,
    pub id: Option<String>,
    pub role: Option<String>,
    pub sender_name: Option<String>,
    pub sender_id: Option<String>,
    pub content: Option<String>,
    pub description: Option<String>,
    pub conclusion: Option<String>,
    pub task: Option<String>,
    pub result: Option<String>,
    pub status: Option<String>,
    pub timestamp: Option<Timestamp>,
    pub completed_at: Option<Timestamp>,
}

/// The item that a row stands for; none where its type is not known.
pub open spec fn item_of(row: TimelineRow) -> Option<TimelineView> {
    match row.item_type {
        Some(t) => if t@ == "message"@ {
            Some(
                TimelineView::Message {
                    id: channels::or_empty(row.id),
                    role: channels::or_empty(row.role),
                    sender_name: text::opt_text(row.sender_name),
                    sender_id: text::opt_text(row.sender_id),
                    content: channels::or_empty(row.content),
                    created_at: outside::stamp(row.timestamp),
                },
            )
        } else if t@ == "branch_run"@ {
            Some(
                TimelineView::BranchRun {
                    id: channels::or_empty(row.id),
                    description: channels::or_empty(row.description),
                    conclusion: text::opt_text(row.conclusion),
                    started_at: outside::stamp(row.timestamp),
                    completed_at: outside::opt_stamp(row.completed_at),
                },
            )
        } else if t@ == "worker_run"@ {
            Some(
                TimelineView::WorkerRun {
                    id: channels::or_empty(row.id),
                    task: channels::or_empty(row.task),
                    result: text::opt_text(row.result),
                    status: channels::or_empty(row.status),
                    started_at: outside::stamp(row.timestamp),
                    completed_at: outside::opt_stamp(row.completed_at),
                },
            )
        } else {
            None
        },
        None => None,
    }
}

fn row_to_item(row: TimelineRow) -> (r: Option<TimelineItem>)
    ensures
        match r {
            Some(i) => item_of(row) == Some(i@),
            None => item_of(row) is None,
        },
{
    let kind = match row.item_type {
        Some(t) => t,
        None => {
            return None;
        },
    };
    if str_eq(kind.as_str(), "message") {
        let created_at = write_stamp(&row.timestamp);
        Some(
            TimelineItem::Message {
                id: text_or_empty(row.id),
                role: text_or_empty(row.role),
                sender_name: row.sender_name,
                sender_id: row.sender_id,
                content: text_or_empty(row.content),
                created_at,
            },
        )
    } else if str_eq(kind.as_str(), "branch_run") {
        let started_at = write_stamp(&row.timestamp);
        let completed_at = write_opt_stamp(&row.completed_at);
        Some(
            TimelineItem::BranchRun {
                id: text_or_empty(row.id),
                description: text_or_empty(row.description),
                conclusion: row.conclusion,
                started_at,
                completed_at,
            },
        )
    } else if str_eq(kind.as_str(), "worker_run") {
        let started_at = write_stamp(&row.timestamp);
        let completed_at = write_opt_stamp(&row.completed_at);
        Some(
            TimelineItem::WorkerRun {
                id: text_or_empty(row.id),
                task: text_or_empty(row.task),
                result: row.result,
                status: text_or_empty(row.status),
                started_at,
                completed_at,
            },
        )
    } else {
        None
    }
}

/// The query for the timeline of a channel, newest item first. It binds the channel,
/// the limit and, where only items before a time are wanted, that time: such items
/// have a timestamp strictly before it.
pub fn timeline_query(before: bool) -> (r: &'static str)
    ensures
        r@ == (if before {
            "SELECT * FROM ( SELECT 'message' AS item_type, id, role, sender_name, sender_id, content, NULL AS description, NULL AS conclusion, NULL AS task, NULL AS result, NULL AS status, created_at AS timestamp, NULL AS completed_at FROM conversation_messages WHERE channel_id = ?1 UNION ALL SELECT 'branch_run' AS item_type, id, NULL, NULL, NULL, NULL, description, conclusion, NULL, NULL, NULL, started_at AS timestamp, completed_at FROM branch_runs WHERE channel_id = ?1 UNION ALL SELECT 'worker_run' AS item_type, id, NULL, NULL, NULL, NULL, NULL, NULL, task, result, status, started_at AS timestamp, completed_at FROM worker_runs WHERE channel_id = ?1 ) WHERE 1=1 AND timestamp < ?3 ORDER BY timestamp DESC LIMIT ?2"@
        } else {
            "SELECT * FROM ( SELECT 'message' AS item_type, id, role, sender_name, sender_id, content, NULL AS description, NULL AS conclusion, NULL AS task, NULL AS result, NULL AS status, created_at AS timestamp, NULL AS completed_at FROM conversation_messages WHERE channel_id = ?1 UNION ALL SELECT 'branch_run' AS item_type, id, NULL, NULL, NULL, NULL, description, conclusion, NULL, NULL, NULL, started_at AS timestamp, completed_at FROM branch_runs WHERE channel_id = ?1 UNION ALL SELECT 'worker_run' AS item_type, id, NULL, NULL, NULL, NULL, NULL, NULL, task, result, status, started_at AS timestamp, completed_at FROM worker_runs WHERE channel_id = ?1 ) WHERE 1=1  ORDER BY timestamp DESC LIMIT ?2"@
        }),
{
    if before {
        "SELECT * FROM ( SELECT 'message' AS item_type, id, role, sender_name, sender_id, content, NULL AS description, NULL AS conclusion, NULL AS task, NULL AS result, NULL AS status, created_at AS timestamp, NULL AS completed_at FROM conversation_messages WHERE channel_id = ?1 UNION ALL SELECT 'branch_run' AS item_type, id, NULL, NULL, NULL, NULL, description, conclusion, NULL, NULL, NULL, started_at AS timestamp, completed_at FROM branch_runs WHERE channel_id = ?1 UNION ALL SELECT 'worker_run' AS item_type, id, NULL, NULL, NULL, NULL, NULL, NULL, task, result, status, started_at AS timestamp, completed_at FROM worker_runs WHERE channel_id = ?1 ) WHERE 1=1 AND timestamp < ?3 ORDER BY timestamp DESC LIMIT ?2"
    } else {
        "SELECT * FROM ( SELECT 'message' AS item_type, id, role, sender_name, sender_id, content, NULL AS description, NULL AS conclusion, NULL AS task, NULL AS result, NULL AS status, created_at AS timestamp, NULL AS completed_at FROM conversation_messages WHERE channel_id = ?1 UNION ALL SELECT 'branch_run' AS item_type, id, NULL, NULL, NULL, NULL, description, conclusion, NULL, NULL, NULL, started_at AS timestamp, completed_at FROM branch_runs WHERE channel_id = ?1 UNION ALL SELECT 'worker_run' AS item_type, id, NULL, NULL, NULL, NULL, NULL, NULL, task, result, status, started_at AS timestamp, completed_at FROM worker_runs WHERE channel_id = ?1 ) WHERE 1=1  ORDER BY timestamp DESC LIMIT ?2"
    }
}

/// The timeline of rows that come newest first: their items, oldest first.
pub open spec fn timeline(rows: Seq<TimelineRow>) -> Seq<TimelineView>
    decreases rows.len(),
{
    if rows.len() == 0 {
        Seq::empty()
    } else {
        let older = timeline(rows.drop_first());
        match item_of(rows[0]) {
            Some(i) => older.push(i),
            None => older,
        }
    }
}

/// The timeline of a channel, oldest item first, from rows that come newest
/// first.
pub fn channel_timeline(rows: Vec<TimelineRow>) -> (r: Vec<TimelineItem>)
    ensures
        timeline_views(r@) == timeline(rows@),
{
    let mut rows = rows;
    let ghost all = rows@;
    let mut out: Vec<TimelineItem> = Vec::new();
    proof {
        assert(all.skip(all.len() as int) =~= Seq::<TimelineRow>::empty());
        assert(timeline_views(out@) =~= Seq::<TimelineView>::empty());
    }
    while rows.len() > 0
        invariant
            rows@.len() <= all.len(),
            rows@ == all.take(rows@.len() as int),
            timeline_views(out@) == timeline(all.skip(rows@.len() as int)),
        decreases rows@.len(),
    {
        let ghost n = rows@.len() as int;
        let ghost before = timeline_views(out@);
        let row = rows.pop().unwrap();
        proof {
            assert(row == all[n - 1]);
            assert(rows@ =~= all.take(n - 1));
            assert(all.skip(n - 1)[0] == row);
            assert(all.skip(n - 1).drop_first() =~= all.skip(n));
        }
        if let Some(item) = row_to_item(row) {
            out.push(item);
            assert(timeline_views(out@) =~= before.push(item@));
        }
    }
    assert(all.skip(0) =~= all);
    out
}

/// Rows that come from newest to oldest become items from oldest to newest: the
/// item of a later row stands before that of an earlier one.
pub proof fn law_timeline_is_reversed(rows: Seq<TimelineRow>, row: TimelineRow)
    ensures
        timeline(seq![row] + rows) == timeline(rows) + (match item_of(row) {
            Some(i) => seq![i],
            None => Seq::empty(),
        }),
{
    assert((seq![row] + rows).drop_first() =~= rows);
    assert((seq![row] + rows)[0] == row);
    match item_of(row) {
        Some(i) => {
            assert(timeline(rows).push(i) =~= timeline(rows) + seq![i]);
        },
        None => {
            assert(timeline(rows) =~= timeline(rows) + Seq::<TimelineView>::empty());
        },
    }
}

/// A message is read from its row as it was stored, with the time of the reading where it
/// has none.
pub proof fn law_message_is_read(row: MessageRow, now: Timestamp, r: ConversationMessage)
    requires
        message_from(row, now, r),
    ensures
        row.content matches Some(x) ==> r.content@ == x@,
        row.content is None ==> r.content@.len() == 0,
        row.role matches Some(x) ==> r.role@ == x@,
        row.id matches Some(x) ==> r.id@ == x@,
        row.channel_id matches Some(x) ==> r.channel_id@ == x@,
        r.sender_name == row.sender_name && r.sender_id == row.sender_id && r.metadata
            == row.metadata,
        row.created_at matches Some(t) ==> r.created_at == t,
        row.created_at is None ==> r.created_at == now,
{
}

/// A row of the timeline becomes the item that its type names, with the columns of that
/// type; a row of another type becomes none.
pub proof fn law_rows_become_items(row: TimelineRow, t: String, s: String)
    requires
        row.item_type == Some(t),
    ensures
        t@ == "message"@ && row.content == Some(s) ==> (item_of(row) matches Some(i) && (i matches
            TimelineView::Message { content, .. } && content == s@)),
        t@ == "message"@ && row.role == Some(s) ==> (item_of(row) matches Some(i) && (i matches
            TimelineView::Message { role, .. } && role == s@)),
        t@ == "branch_run"@ && row.description == Some(s) ==> (item_of(row) matches Some(i) && (
        i matches TimelineView::BranchRun { description, .. } && description == s@)),
        t@ == "branch_run"@ && row.conclusion == Some(s) ==> (item_of(row) matches Some(i) && (
        i matches TimelineView::BranchRun { conclusion, .. } && conclusion == Some(s@))),
        t@ == "worker_run"@ && row.task == Some(s) ==> (item_of(row) matches Some(i) && (
        i matches TimelineView::WorkerRun { task, .. } && task == s@)),
        t@ == "worker_run"@ && row.result == Some(s) ==> (item_of(row) matches Some(i) && (
        i matches TimelineView::WorkerRun { result, .. } && result == Some(s@))),
        t@ == "worker_run"@ && row.status == Some(s) ==> (item_of(row) matches Some(i) && (
        i matches TimelineView::WorkerRun { status, .. } && status == s@)),
        item_of(row) is Some <==> t@ == "message"@ || t@ == "branch_run"@ || t@ == "worker_run"@,
{
    reveal_strlit("message");
    reveal_strlit("branch_run");
    reveal_strlit("worker_run");
    assert("message"@.len() != "branch_run"@.len());
    assert("branch_run"@[0] != "worker_run"@[0]);
}

} // verus!
