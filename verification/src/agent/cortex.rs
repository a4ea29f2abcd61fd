//! Cortex: observes what an agent does, keeps the memory bulletin and the profile
//! of the agent, and links its memories.
use crate::config::F32;
use crate::json;
use crate::json::JsonTree;
use crate::json::{
    flag_json, json_set, null_json, number_json, object_json, parse_json, text_json,
};
use crate::memory::search;
use crate::memory::search::{SearchConfig, SearchMode, SearchSort};
use crate::memory::types::{Association, MemoryType, RelationType};
use crate::message::Timestamp;
use crate::outside;
use crate::outside::{fresh_id, write_stamp};
use crate::process::ProcessEvent;
use crate::text;
use crate::text::{
    cat2, cat3, count_text, first_line, split_words, strip_all_end, strip_all_start, trim_text,
    u64_text,
};
use vstd::prelude::*;

verus! {

// ---------------------------------------------------------------------------
// Signals
// ---------------------------------------------------------------------------

/// A high-level activity signal (not raw conversation).
pub enum Signal {
    /// Channel started.
    ChannelStarted { channel_id: String },
    /// Channel ended.
    ChannelEnded { channel_id: String },
    /// Memory was saved.
    MemorySaved { memory_type: String, content_summary: String, importance: F32 },
    /// Worker completed.
    WorkerCompleted { task_summary: String, result_summary: String },
    /// Compaction occurred.
    Compaction { channel_id: String, turns_compacted: i64 },
    /// Error occurred.
    Error { component: String, error_summary: String },
}

/// What a [`Signal`] says.
pub enum SignalView {
    ChannelStarted { channel_id: Seq<char> },
    ChannelEnded { channel_id: Seq<char> },
    MemorySaved { memory_type: Seq<char>, content_summary: Seq<char>, importance: F32 },
    WorkerCompleted { task_summary: Seq<char>, result_summary: Seq<char> },
    Compaction { channel_id: Seq<char>, turns_compacted: i64 },
    Error { component: Seq<char>, error_summary: Seq<char> },
}

impl View for Signal {
    type V = SignalView;

    open spec fn view(&self) -> SignalView {
        match self {
            Signal::ChannelStarted { channel_id } => SignalView::ChannelStarted {
                channel_id: channel_id@,
            },
            Signal::ChannelEnded { channel_id } => SignalView::ChannelEnded {
                channel_id: channel_id@,
            },
            Signal::MemorySaved { memory_type, content_summary, importance } => {
                SignalView::MemorySaved {
                    memory_type: memory_type@,
                    content_summary: content_summary@,
                    importance: *importance,
                }
            },
            Signal::WorkerCompleted { task_summary, result_summary } => {
                SignalView::WorkerCompleted {
                    task_summary: task_summary@,
                    result_summary: result_summary@,
                }
            },
            Signal::Compaction { channel_id, turns_compacted } => SignalView::Compaction {
                channel_id: channel_id@,
                turns_compacted: *turns_compacted,
            },
            Signal::Error { component, error_summary } => SignalView::Error {
                component: component@,
                error_summary: error_summary@,
            },
        }
    }
}

/// The signal of an event, where it gives one. `percent` is the threshold that a
/// compaction reached, in percent.
pub open spec fn signal_of(event: ProcessEvent, percent: i64) -> Option<SignalView> {
    match event {
        ProcessEvent::MemorySaved { memory_id } => Some(
            SignalView::MemorySaved {
                memory_type: "unknown"@,
                content_summary: "memory "@ + memory_id@,
                importance: F32 { bits: 0x3f000000 },
            },
        ),
        ProcessEvent::WorkerComplete { result, .. } => Some(
            SignalView::WorkerCompleted {
                task_summary: "completed task"@,
                result_summary: text::first_line_or(result@, "done"@),
            },
        ),
        ProcessEvent::CompactionTriggered { channel_id, .. } => Some(
            SignalView::Compaction { channel_id: channel_id@, turns_compacted: percent },
        ),
        _ => None,
    }
}

/// Reads the signal of an event.
pub fn extract_signal(event: &ProcessEvent, percent: i64) -> (r: Option<Signal>)
    ensures
        match r {
            Some(s) => signal_of(*event, percent) == Some(s@),
            None => signal_of(*event, percent) is None,
        },
{
    match event {
        ProcessEvent::MemorySaved { memory_id } => Some(
            Signal::MemorySaved {
                memory_type: "unknown".to_owned(),
                content_summary: cat2("memory ", memory_id.as_str()),
                importance: F32 { bits: 0x3f000000 },
            },
        ),
        ProcessEvent::WorkerComplete { result, .. } => Some(
            Signal::WorkerCompleted {
                task_summary: "completed task".to_owned(),
                result_summary: first_line(result.as_str(), "done"),
            },
        ),
        ProcessEvent::CompactionTriggered { channel_id, .. } => Some(
            Signal::Compaction { channel_id: channel_id.clone(), turns_compacted: percent },
        ),
        _ => None,
    }
}

/// Signals that are kept at most.
pub const MAX_SIGNALS: usize = 100;

/// What a list of signals says.
pub open spec fn signals_view(v: Seq<Signal>) -> Seq<SignalView> {
    Seq::new(v.len(), |i: int| v[i]@)
}

/// Signals with one more: the oldest makes room where there are too many.
pub open spec fn with_signal(v: Seq<SignalView>, s: SignalView) -> Seq<SignalView> {
    if v.len() + 1 > MAX_SIGNALS {
        v.push(s).drop_first()
    } else {
        v.push(s)
    }
}

/// The cortex observes system-wide activity.
pub struct Cortex {
    /// Recent activity signals (rolling window).
    pub signal_buffer: Vec<Signal>,
    /// System prompt of the cortex.
    pub system_prompt: String,
}

impl Cortex {
    /// Create a new cortex.
    pub fn new(system_prompt: String) -> (r: Self)
        ensures
            r.signal_buffer@.len() == 0,
            r.system_prompt == system_prompt,
    {
        Cortex { signal_buffer: Vec::new(), system_prompt }
    }

    /// Process a process event and extract signals.
    pub fn observe(&mut self, event: &ProcessEvent, percent: i64)
        ensures
            final(self).system_prompt == old(self).system_prompt,
            signals_view(final(self).signal_buffer@) == (match signal_of(*event, percent) {
                Some(s) => with_signal(signals_view(old(self).signal_buffer@), s),
                None => signals_view(old(self).signal_buffer@),
            }),
    {
        if let Some(s) = extract_signal(event, percent) {
            let ghost before = self.signal_buffer@;
            self.signal_buffer.push(s);
            assert(signals_view(self.signal_buffer@) =~= signals_view(before).push(s@));
            if self.signal_buffer.len() > MAX_SIGNALS {
                let ghost mid = self.signal_buffer@;
                let _oldest = self.signal_buffer.remove(0);
                assert(signals_view(self.signal_buffer@) =~= signals_view(mid).drop_first());
            }
        }
    }
}

/// The window of signals never grows beyond its limit, and the latest signal is the
/// last one.
pub proof fn law_signal_window(v: Seq<SignalView>, s: SignalView)
    requires
        v.len() <= MAX_SIGNALS,
    ensures
        with_signal(v, s).len() <= MAX_SIGNALS,
        with_signal(v, s).last() == s,
{
}

// ---------------------------------------------------------------------------
// The log
// ---------------------------------------------------------------------------

/// A persisted cortex action record.
pub struct CortexEvent {
    pub id: String,
    pub event_type: String,
    pub summary: String,
    pub details: Option<serde_json::Value>,
    pub created_at: String,
}

/// A record as it is stored: its details are a JSON text.
pub struct CortexEventRow {
    pub id: String,
    pub event_type: String,
    pub summary: String,
    pub details: Option<String>,
    pub created_at: Timestamp,
}

/// `r` is the record of a row. Details that are no JSON text are left out.
pub open spec fn event_from(row: CortexEventRow, r: CortexEvent) -> bool {
    &&& r.id == row.id
    &&& r.event_type == row.event_type
    &&& r.summary == row.summary
    &&& match r.details {
        Some(v) => row.details is Some && json::parsed_json(row.details->0@) == Some(
            json::json_tree(v),
        ),
        None => row.details is None || json::parsed_json(row.details->0@) is None,
    }
    &&& r.created_at@ == outside::stamp(Some(row.created_at))
}

impl CortexEventRow {
    /// The record of a row.
    pub fn into_event(self) -> (r: CortexEvent)
        ensures
            event_from(self, r),
    {
        let details = match &self.details {
            Some(d) => parse_json(d.as_str()),
            None => None,
        };
        CortexEvent {
            id: self.id,
            event_type: self.event_type,
            summary: self.summary,
            details,
            created_at: write_stamp(&Some(self.created_at)),
        }
    }
}

/// The query for records, newest first, of one type where one is given.
pub fn events_query(typed: bool) -> (r: &'static str)
    ensures
        r@ == (if typed {
            "SELECT id, event_type, summary, details, created_at FROM cortex_events WHERE event_type = ? ORDER BY created_at DESC LIMIT ? OFFSET ?"@
        } else {
            "SELECT id, event_type, summary, details, created_at FROM cortex_events ORDER BY created_at DESC LIMIT ? OFFSET ?"@
        }),
{
    if typed {
        "SELECT id, event_type, summary, details, created_at FROM cortex_events WHERE event_type = ? ORDER BY created_at DESC LIMIT ? OFFSET ?"
    } else {
        "SELECT id, event_type, summary, details, created_at FROM cortex_events ORDER BY created_at DESC LIMIT ? OFFSET ?"
    }
}

/// A record to write.
pub struct LogEntry {
    pub event_type: &'static str,
    pub summary: String,
    pub details: serde_json::Value,
}

// ---------------------------------------------------------------------------
// The bulletin
// ---------------------------------------------------------------------------

/// Attempts after the first one to write the first bulletin.
pub const MAX_RETRIES: u32 = 3;

/// Seconds between two attempts.
pub const RETRY_DELAY_SECS: u64 = 15;

/// What follows an attempt to write the first bulletin.
pub enum AfterAttempt {
    /// It goes on without another one.
    GoOn,
    /// It is tried again after a while, which is logged.
    Retry(LogEntry),
}

/// An object with a number.
pub open spec fn with_number(
    m: Map<Seq<char>, JsonTree>,
    key: Seq<char>,
    n: u64,
) -> Map<Seq<char>, JsonTree> {
    m.insert(key, JsonTree::Unsigned(n))
}

/// An object with a text.
pub open spec fn with_text(
    m: Map<Seq<char>, JsonTree>,
    key: Seq<char>,
    s: Seq<char>,
) -> Map<Seq<char>, JsonTree> {
    m.insert(key, JsonTree::Text(s))
}

/// Decides what follows an attempt to write the first bulletin. Attempts count from
/// 0.
pub fn after_attempt(attempt: u32, succeeded: bool) -> (r: AfterAttempt)
    requires
        attempt <= MAX_RETRIES,
    ensures
        match r {
            AfterAttempt::GoOn => succeeded || attempt == 3,
            AfterAttempt::Retry(e) => !succeeded && attempt < 3 && e.event_type@
                == "bulletin_failed"@ && e.summary@
                == "Bulletin generation failed, retrying (attempt "@ + text::decimal(
                (attempt + 1) as nat,
            ) + "/3)"@ && json::json_tree(e.details) == JsonTree::Object(
                with_number(
                    with_number(json::no_entries(), "attempt"@, (attempt + 1) as u64),
                    "max_retries"@,
                    3,
                ),
            ),
        },
{
    if succeeded || attempt == MAX_RETRIES {
        return AfterAttempt::GoOn;
    }
    let n: u64 = attempt as u64 + 1;
    let count = u64_text(n);
    let mut details = object_json();
    json_set(&mut details, "attempt", number_json(n));
    json_set(&mut details, "max_retries", number_json(3));
    AfterAttempt::Retry(
        LogEntry {
            event_type: "bulletin_failed",
            summary: cat3("Bulletin generation failed, retrying (attempt ", count.as_str(), "/3)"),
            details,
        },
    )
}

/// A section of the bulletin: what is searched for it, and its label.
pub struct BulletinSection {
    pub label: &'static str,
    pub mode: SearchMode,
    pub memory_type: Option<MemoryType>,
    pub sort_by: SearchSort,
    pub max_results: usize,
}

/// What a [`BulletinSection`] says.
pub struct SectionView {
    pub label: Seq<char>,
    pub mode: SearchMode,
    pub memory_type: Option<MemoryType>,
    pub sort_by: SearchSort,
    pub max_results: usize,
}

impl View for BulletinSection {
    type V = SectionView;

    open spec fn view(&self) -> SectionView {
        SectionView {
            label: self.label@,
            mode: self.mode,
            memory_type: self.memory_type,
            sort_by: self.sort_by,
            max_results: self.max_results,
        }
    }
}

/// A section with memories of one type.
pub open spec fn typed_section(
    label: Seq<char>,
    memory_type: MemoryType,
    sort_by: SearchSort,
    max_results: usize,
) -> SectionView {
    SectionView {
        label,
        mode: SearchMode::Typed,
        memory_type: Some(memory_type),
        sort_by,
        max_results,
    }
}

/// The sections of the bulletin, in order.
pub open spec fn section_table() -> Seq<SectionView> {
    seq![
        typed_section(
            "Identity & Core Facts"@,
            MemoryType::Identity,
            SearchSort::Importance,
            15,
        ),
        SectionView {
            label: "Recent Memories"@,
            mode: SearchMode::Recent,
            memory_type: None,
            sort_by: SearchSort::Recent,
            max_results: 15,
        },
        typed_section("Decisions"@, MemoryType::Decision, SearchSort::Recent, 10),
        SectionView {
            label: "High-Importance Context"@,
            mode: SearchMode::Important,
            memory_type: None,
            sort_by: SearchSort::Importance,
            max_results: 10,
        },
        typed_section(
            "Preferences & Patterns"@,
            MemoryType::Preference,
            SearchSort::Importance,
            10,
        ),
        typed_section("Active Goals"@, MemoryType::Goal, SearchSort::Recent, 10),
        typed_section("Recent Events"@, MemoryType::Event, SearchSort::Recent, 10),
        typed_section("Observations"@, MemoryType::Observation, SearchSort::Recent, 5),
    ]
}

/// Makes a section with memories of one type.
fn typed(label: &'static str, memory_type: MemoryType, sort_by: SearchSort, max_results: usize)
    -> (r: BulletinSection)
    ensures
        r@ == typed_section(label@, memory_type, sort_by, max_results),
{
    BulletinSection {
        label,
        mode: SearchMode::Typed,
        memory_type: Some(memory_type),
        sort_by,
        max_results,
    }
}

/// The sections of the bulletin, in order.
pub fn bulletin_sections() -> (r: Vec<BulletinSection>)
    ensures
        r@.len() == section_table().len(),
        forall|i: int| 0 <= i < r@.len() ==> (#[trigger] r@[i])@ == section_table()[i],
{
    let mut v: Vec<BulletinSection> = Vec::new();
    v.push(typed("Identity & Core Facts", MemoryType::Identity, SearchSort::Importance, 15));
    v.push(
        BulletinSection {
            label: "Recent Memories",
            mode: SearchMode::Recent,
            memory_type: None,
            sort_by: SearchSort::Recent,
            max_results: 15,
        },
    );
    v.push(typed("Decisions", MemoryType::Decision, SearchSort::Recent, 10));
    v.push(
        BulletinSection {
            label: "High-Importance Context",
            mode: SearchMode::Important,
            memory_type: None,
            sort_by: SearchSort::Importance,
            max_results: 10,
        },
    );
    v.push(typed("Preferences & Patterns", MemoryType::Preference, SearchSort::Importance, 10));
    v.push(typed("Active Goals", MemoryType::Goal, SearchSort::Recent, 10));
    v.push(typed("Recent Events", MemoryType::Event, SearchSort::Recent, 10));
    v.push(typed("Observations", MemoryType::Observation, SearchSort::Recent, 5));
    v
}

impl BulletinSection {
    /// The search that a section asks for.
    pub fn search_config(&self) -> (r: SearchConfig)
        ensures
            r == (SearchConfig {
                mode: self.mode,
                memory_type: self.memory_type,
                sort_by: self.sort_by,
                max_results: self.max_results,
                ..search::default_search()
            }),
    {
        let mut c = SearchConfig::default();
        c.mode = self.mode;
        c.memory_type = self.memory_type;
        c.sort_by = self.sort_by;
        c.max_results = self.max_results;
        c
    }
}

/// A memory in a section: its type, its importance with one decimal, its content.
pub struct BulletinItem {
    pub memory_type: MemoryType,
    pub importance: String,
    pub content: String,
}

/// The line of a memory: only the first line of its content is shown.
pub open spec fn item_line(item: BulletinItem) -> Seq<char> {
    "- ["@ + item.memory_type.name() + "] (importance: "@ + item.importance@ + ") "@
        + text::first_line_or(item.content@, item.content@) + "\n"@
}

/// The lines of memories.
pub open spec fn item_lines(items: Seq<BulletinItem>) -> Seq<char>
    decreases items.len(),
{
    if items.len() == 0 {
        Seq::empty()
    } else {
        item_lines(items.drop_last()) + item_line(items.last())
    }
}

/// The text of a section: nothing where nothing was found, or where the search
/// failed.
pub open spec fn section_text(label: Seq<char>, found: Option<Seq<BulletinItem>>) -> Seq<char> {
    match found {
        Some(items) => if items.len() == 0 {
            Seq::empty()
        } else {
            "### "@ + label + "\n\n"@ + item_lines(items) + seq!['\n']
        },
        None => Seq::empty(),
    }
}

/// What was found for a section.
pub open spec fn found_items(found: Option<Vec<BulletinItem>>) -> Option<Seq<BulletinItem>> {
    match found {
        Some(v) => Some(v@),
        None => None,
    }
}

/// Writes the lines of memories.
fn push_items(out: &mut String, items: &Vec<BulletinItem>)
    ensures
        final(out)@ == old(out)@ + item_lines(items@),
{
    let ghost before = out@;
    let n: usize = items.len();
    let mut i: usize = 0;
    assert(before + item_lines(items@.take(0)) =~= before);
    while i < n
        invariant
            n == items@.len(),
            i <= n,
            out@ == before + item_lines(items@.take(i as int)),
        decreases n - i,
    {
        proof {
            assert(items@.take(i + 1).drop_last() =~= items@.take(i as int));
            assert(items@.take(i + 1).last() == items@[i as int]);
        }
        let item = &items[i];
        let name = item.memory_type.to_string();
        let line = first_line(item.content.as_str(), item.content.as_str());
        out.append("- [");
        out.append(name.as_str());
        out.append("] (importance: ");
        out.append(item.importance.as_str());
        out.append(") ");
        out.append(line.as_str());
        out.append("\n");
        assert(out@ =~= before + item_lines(items@.take(i + 1)));
        i = i + 1;
    }
    assert(items@.take(n as int) =~= items@);
}

/// Writes a section.
pub fn push_section(out: &mut String, label: &str, found: &Option<Vec<BulletinItem>>)
    ensures
        final(out)@ == old(out)@ + section_text(label@, found_items(*found)),
{
    let ghost before = out@;
    if let Some(items) = found {
        if items.len() > 0 {
            out.append("### ");
            out.append(label);
            out.append("\n\n");
            push_items(out, items);
            out.push('\n');
            assert(out@ =~= before + section_text(label@, found_items(*found)));
            return ;
        }
    }
    assert(before + Seq::<char>::empty() =~= before);
}

/// The sections with what was found for each.
pub open spec fn gathered(found: Seq<Option<Vec<BulletinItem>>>) -> Seq<char>
    decreases found.len(),
{
    if found.len() == 0 {
        Seq::empty()
    } else {
        gathered(found.drop_last()) + section_text(
            section_table()[found.len() - 1].label,
            found_items(found.last()),
        )
    }
}

/// Writes all sections, with what was found for each of them.
pub fn gather_bulletin_sections(found: &Vec<Option<Vec<BulletinItem>>>) -> (r: String)
    requires
        found@.len() == section_table().len(),
    ensures
        r@ == gathered(found@),
{
    let sections = bulletin_sections();
    let mut out = String::new();
    let n: usize = found.len();
    let mut i: usize = 0;
    assert(out@ =~= Seq::<char>::empty());
    while i < n
        invariant
            n == found@.len(),
            i <= n,
            n == section_table().len(),
            sections@.len() == n,
            forall|j: int| 0 <= j < n ==> (#[trigger] sections@[j])@ == section_table()[j],
            out@ == gathered(found@.take(i as int)),
        decreases n - i,
    {
        proof {
            assert(found@.take(i + 1).drop_last() =~= found@.take(i as int));
            assert(found@.take(i + 1).last() == found@[i as int]);
            assert(sections@[i as int]@ == section_table()[i as int]);
        }
        push_section(&mut out, sections[i].label, &found[i]);
        i = i + 1;
    }
    assert(found@.take(n as int) =~= found@);
    out
}

/// What comes of an attempt to write a bulletin.
pub struct BulletinOutcome {
    /// The bulletin to keep. The one before stays where there is none.
    pub bulletin: Option<String>,
    pub succeeded: bool,
    pub log: LogEntry,
}

/// The entry for a bulletin without memories.
pub open spec fn skipped_details(duration_ms: u64) -> JsonTree {
    JsonTree::Object(
        with_number(
            with_number(with_number(json::no_entries(), "word_count"@, 0), "sections"@, 0),
            "duration_ms"@,
            duration_ms,
        ).insert("skipped"@, JsonTree::Flag(true)),
    )
}

/// Decides what follows when there are no memories: the bulletin is empty.
pub fn bulletin_skipped(duration_ms: u64) -> (r: BulletinOutcome)
    ensures
        is_skip(r, duration_ms),
{
    let mut details = object_json();
    json_set(&mut details, "word_count", number_json(0));
    json_set(&mut details, "sections", number_json(0));
    json_set(&mut details, "duration_ms", number_json(duration_ms));
    json_set(&mut details, "skipped", flag_json(true));
    BulletinOutcome {
        bulletin: Some(String::new()),
        succeeded: true,
        log: LogEntry {
            event_type: "bulletin_generated",
            summary: "Bulletin skipped: no memories in graph".to_owned(),
            details,
        },
    }
}

/// How the writing of a bulletin goes on once its sections were searched for.
pub enum BulletinStep {
    /// It is over.
    Done(BulletinOutcome),
    /// A model is to write the bulletin from these sections.
    Synthesize(String),
}

/// Every search failed.
pub open spec fn all_failed(found: Seq<Option<Vec<BulletinItem>>>) -> bool {
    forall|i: int| 0 <= i < found.len() ==> (#[trigger] found[i]) is None
}

/// The entry for a bulletin whose searches all failed.
pub open spec fn failed_details(duration_ms: u64) -> JsonTree {
    JsonTree::Object(
        with_number(
            with_text(json::no_entries(), "error"@, "every section query failed"@),
            "duration_ms"@,
            duration_ms,
        ),
    )
}

/// An outcome that keeps no new bulletin, because every search failed.
pub open spec fn is_search_failure(r: BulletinOutcome, duration_ms: u64) -> bool {
    &&& r.bulletin is None
    &&& !r.succeeded
    &&& r.log.event_type@ == "bulletin_failed"@
    &&& r.log.summary@ == "Bulletin failed after "@ + text::decimal(duration_ms as nat)
        + "ms: every section query failed"@
    &&& json::json_tree(r.log.details) == failed_details(duration_ms)
}

/// An outcome that keeps an empty bulletin, because there are no memories.
pub open spec fn is_skip(r: BulletinOutcome, duration_ms: u64) -> bool {
    &&& r.bulletin is Some
    &&& r.bulletin->0@.len() == 0
    &&& r.succeeded
    &&& r.log.event_type@ == "bulletin_generated"@
    &&& r.log.summary@ == "Bulletin skipped: no memories in graph"@
    &&& json::json_tree(r.log.details) == skipped_details(duration_ms)
}

/// Tells whether every search failed.
fn check_all_failed(found: &Vec<Option<Vec<BulletinItem>>>) -> (r: bool)
    ensures
        r == all_failed(found@),
{
    let n: usize = found.len();
    let mut i: usize = 0;
    while i < n
        invariant
            n == found@.len(),
            i <= n,
            forall|j: int| 0 <= j < i ==> (#[trigger] found@[j]) is None,
        decreases n - i,
    {
        if found[i].is_some() {
            assert(found@[i as int] is Some);
            return false;
        }
        i = i + 1;
    }
    true
}

/// Decides how the writing of a bulletin goes on, from what was found for each
/// section. Where every search failed, the previous bulletin is preserved (not
/// blanked out); where there are no memories, the bulletin is empty.
pub fn bulletin_searched(found: &Vec<Option<Vec<BulletinItem>>>, duration_ms: u64) -> (r:
    BulletinStep)
    requires
        found@.len() == section_table().len(),
    ensures
        match r {
            BulletinStep::Done(o) => if all_failed(found@) {
                is_search_failure(o, duration_ms)
            } else {
                gathered(found@).len() == 0 && is_skip(o, duration_ms)
            },
            BulletinStep::Synthesize(raw) => !all_failed(found@) && raw@ == gathered(found@)
                && raw@.len() > 0,
        },
{
    if check_all_failed(found) {
        let ms = u64_text(duration_ms);
        let mut details = object_json();
        json_set(&mut details, "error", text_json("every section query failed"));
        json_set(&mut details, "duration_ms", number_json(duration_ms));
        return BulletinStep::Done(
            BulletinOutcome {
                bulletin: None,
                succeeded: false,
                log: LogEntry {
                    event_type: "bulletin_failed",
                    summary: cat3(
                        "Bulletin failed after ",
                        ms.as_str(),
                        "ms: every section query failed",
                    ),
                    details,
                },
            },
        );
    }
    let raw = gather_bulletin_sections(found);
    if raw.as_str().is_empty() {
        BulletinStep::Done(bulletin_skipped(duration_ms))
    } else {
        BulletinStep::Synthesize(raw)
    }
}

/// The number of sections in a text: how often a header stands in it.
pub open spec fn section_count(raw: Seq<char>) -> nat {
    text::count_from(raw, "### "@, 0)
}

/// How a bulletin is reported.
pub open spec fn generated_summary(words: nat, sections: nat, duration_ms: u64) -> Seq<char> {
    "Bulletin generated: "@ + text::decimal(words) + " words, "@ + text::decimal(sections)
        + " sections, "@ + text::decimal(duration_ms as nat) + "ms"@
}

/// Decides what follows when a model has written a bulletin, or has failed to: a
/// bulletin is kept, and after a failure the one before stays.
pub fn bulletin_written(
    raw_sections: &str,
    answer: &Result<String, String>,
    duration_ms: u64,
    model: &str,
) -> (r: BulletinOutcome)
    ensures
        match answer {
            Ok(bulletin) => {
                let words = text::words(bulletin@).len();
                &&& r.bulletin is Some && r.bulletin->0@ == bulletin@
                &&& r.succeeded
                &&& r.log.event_type@ == "bulletin_generated"@
                &&& r.log.summary@ == generated_summary(
                    words,
                    section_count(raw_sections@),
                    duration_ms,
                )
                &&& json::json_tree(r.log.details) == JsonTree::Object(
                    with_text(
                        with_number(
                            with_number(
                                with_number(json::no_entries(), "word_count"@, words as u64),
                                "sections"@,
                                section_count(raw_sections@) as u64,
                            ),
                            "duration_ms"@,
                            duration_ms,
                        ),
                        "model"@,
                        model@,
                    ),
                )
            },
            Err(error) => {
                &&& r.bulletin is None
                &&& !r.succeeded
                &&& r.log.event_type@ == "bulletin_failed"@
                &&& r.log.summary@ == "Bulletin synthesis failed after "@ + text::decimal(
                    duration_ms as nat,
                ) + "ms: "@ + error@
                &&& json::json_tree(r.log.details) == JsonTree::Object(
                    with_text(
                        with_number(
                            with_text(json::no_entries(), "error"@, error@),
                            "duration_ms"@,
                            duration_ms,
                        ),
                        "model"@,
                        model@,
                    ),
                )
            },
        },
{
    let ms = u64_text(duration_ms);
    match answer {
        Ok(bulletin) => {
            let all = split_words(bulletin.as_str());
            assert(text::texts(all@).len() == all@.len());
            let words: usize = all.len();
            proof {
                reveal_strlit("### ");
            }
            let sections: usize = count_text(raw_sections, "### ");
            let word_text = u64_text(words as u64);
            let section_text = u64_text(sections as u64);
            let mut summary = cat3("Bulletin generated: ", word_text.as_str(), " words, ");
            summary.append(section_text.as_str());
            summary.append(" sections, ");
            summary.append(ms.as_str());
            summary.append("ms");
            let mut details = object_json();
            json_set(&mut details, "word_count", number_json(words as u64));
            json_set(&mut details, "sections", number_json(sections as u64));
            json_set(&mut details, "duration_ms", number_json(duration_ms));
            json_set(&mut details, "model", text_json(model));
            BulletinOutcome {
                bulletin: Some(bulletin.clone()),
                succeeded: true,
                log: LogEntry { event_type: "bulletin_generated", summary, details },
            }
        },
        Err(error) => {
            let mut summary = cat3("Bulletin synthesis failed after ", ms.as_str(), "ms: ");
            summary.append(error.as_str());
            let mut details = object_json();
            json_set(&mut details, "error", text_json(error.as_str()));
            json_set(&mut details, "duration_ms", number_json(duration_ms));
            json_set(&mut details, "model", text_json(model));
            BulletinOutcome {
                bulletin: None,
                succeeded: false,
                log: LogEntry { event_type: "bulletin_failed", summary, details },
            }
        },
    }
}

// ---------------------------------------------------------------------------
// The profile
// ---------------------------------------------------------------------------

/// Persisted agent profile generated by the cortex.
pub struct AgentProfile {
    pub agent_id: String,
    pub display_name: Option<String>,
    pub status: Option<String>,
    pub bio: Option<String>,
    pub avatar_seed: Option<String>,
    pub generated_at: String,
    pub updated_at: String,
}

/// A profile as it is stored.
pub struct AgentProfileRow {
    pub agent_id: String,
    pub display_name: Option<String>,
    pub status: Option<String>,
    pub bio: Option<String>,
    pub avatar_seed: Option<String>,
    pub generated_at: Timestamp,
    pub updated_at: Timestamp,
}

impl AgentProfileRow {
    /// The profile of a row.
    pub fn into_profile(self) -> (r: AgentProfile)
        ensures
            r.agent_id == self.agent_id,
            r.display_name == self.display_name,
            r.status == self.status,
            r.bio == self.bio,
            r.avatar_seed == self.avatar_seed,
            r.generated_at@ == outside::stamp(Some(self.generated_at)),
            r.updated_at@ == outside::stamp(Some(self.updated_at)),
    {
        AgentProfile {
            agent_id: self.agent_id,
            display_name: self.display_name,
            status: self.status,
            bio: self.bio,
            avatar_seed: self.avatar_seed,
            generated_at: write_stamp(&Some(self.generated_at)),
            updated_at: write_stamp(&Some(self.updated_at)),
        }
    }
}

/// The JSON text in an answer, without the code fences around it.
pub open spec fn unfenced(response: Seq<char>) -> Seq<char> {
    text::trim(
        text::strip_end(
            text::strip_start(text::strip_start(text::trim(response), "```json"@), "```"@),
            "```"@,
        ),
    )
}

/// Strips markdown code fences if the model wraps the JSON.
pub fn clean_profile_response(response: &str) -> (r: String)
    ensures
        r@ == unfenced(response@),
{
    proof {
        reveal_strlit("```json");
        reveal_strlit("```");
    }
    let a = trim_text(response);
    let b = strip_all_start(a.as_str(), "```json");
    let c = strip_all_start(b.as_str(), "```");
    let d = strip_all_end(c.as_str(), "```");
    trim_text(d.as_str())
}

/// What a model says of an agent.
pub struct ProfileLlmResponse {
    pub display_name: Option<String>,
    pub status: Option<String>,
    pub bio: Option<String>,
}

/// A text, or another one where there is none.
pub open spec fn text_or(o: Option<String>, other: Seq<char>) -> Seq<char> {
    match o {
        Some(s) => s@,
        None => other,
    }
}

/// Reports that a profile was generated.
pub fn profile_summary(profile: &ProfileLlmResponse, duration_ms: u64) -> (r: String)
    ensures
        r@ == "Profile generated: "@ + text_or(profile.display_name, "unnamed"@) + " — \""@
            + text_or(profile.status, "no status"@) + "\" ("@ + text::decimal(duration_ms as nat)
            + "ms)"@,
{
    let name = match &profile.display_name {
        Some(s) => s.as_str(),
        None => "unnamed",
    };
    let status = match &profile.status {
        Some(s) => s.as_str(),
        None => "no status",
    };
    let ms = u64_text(duration_ms);
    let mut out = cat3("Profile generated: ", name, " — \"");
    out.append(status);
    out.append("\" (");
    out.append(ms.as_str());
    out.append("ms)");
    out
}

/// Reports that an answer was no profile.
pub fn profile_unreadable(error: &str) -> (r: String)
    ensures
        r@ == "Profile generation failed: could not parse LLM response — "@ + error@,
{
    cat2("Profile generation failed: could not parse LLM response — ", error)
}

/// Reports that a model gave no answer.
pub fn profile_failed(error: &str, duration_ms: u64) -> (r: String)
    ensures
        r@ == "Profile generation failed after "@ + text::decimal(duration_ms as nat) + "ms: "@
            + error@,
{
    let ms = u64_text(duration_ms);
    let mut out = cat3("Profile generation failed after ", ms.as_str(), "ms: ");
    out.append(error);
    out
}

/// How the writing of a profile goes on once a model was asked for it.
pub enum ProfileStep {
    /// The model gave no answer: only the log is written.
    Failed(LogEntry),
    /// This JSON text is to be read.
    Read(String),
}

/// Decides how the writing of a profile goes on, from what a model answered.
pub fn profile_answered(answer: &Result<String, String>, duration_ms: u64, model: &str) -> (r:
    ProfileStep)
    ensures
        match r {
            ProfileStep::Read(json) => answer is Ok && json@ == unfenced(answer->Ok_0@),
            ProfileStep::Failed(log) => {
                &&& answer is Err
                &&& log.event_type@ == "profile_failed"@
                &&& log.summary@ == "Profile generation failed after "@ + text::decimal(
                    duration_ms as nat,
                ) + "ms: "@ + answer->Err_0@
                &&& json::json_tree(log.details) == JsonTree::Object(
                    with_text(
                        with_number(
                            with_text(json::no_entries(), "error"@, answer->Err_0@),
                            "duration_ms"@,
                            duration_ms,
                        ),
                        "model"@,
                        model@,
                    ),
                )
            },
        },
{
    match answer {
        Ok(response) => ProfileStep::Read(clean_profile_response(response.as_str())),
        Err(error) => {
            let mut details = object_json();
            json_set(&mut details, "error", text_json(error.as_str()));
            json_set(&mut details, "duration_ms", number_json(duration_ms));
            json_set(&mut details, "model", text_json(model));
            ProfileStep::Failed(
                LogEntry {
                    event_type: "profile_failed",
                    summary: profile_failed(error.as_str(), duration_ms),
                    details,
                },
            )
        },
    }
}

/// A profile to store.
pub struct NewProfile {
    pub agent_id: String,
    pub display_name: Option<String>,
    pub status: Option<String>,
    pub bio: Option<String>,
    /// The identifier of the agent, as a stable avatar seed.
    pub avatar_seed: String,
}

/// What follows when the answer of a model was read as a profile.
pub struct ProfileOutcome {
    /// The profile to store, if there is one.
    pub profile: Option<NewProfile>,
    pub log: LogEntry,
}

/// A text as JSON, or null.
pub open spec fn optional_tree(o: Option<String>) -> JsonTree {
    match o {
        Some(s) => JsonTree::Text(s@),
        None => JsonTree::Null,
    }
}

/// Writes a text as JSON, or null.
fn optional_json(o: &Option<String>) -> (r: serde_json::Value)
    ensures
        json::json_tree(r) == optional_tree(*o),
{
    match o {
        Some(s) => text_json(s.as_str()),
        None => null_json(),
    }
}

/// Decides what follows when the answer of a model was read as a profile: the
/// profile is stored, and an answer that is none is only logged.
pub fn profile_read(
    agent_id: &str,
    cleaned: &str,
    parsed: Result<ProfileLlmResponse, String>,
    duration_ms: u64,
    model: &str,
) -> (r: ProfileOutcome)
    ensures
        match parsed {
            Ok(p) => {
                &&& r.profile is Some
                &&& r.profile->0.agent_id@ == agent_id@
                &&& r.profile->0.display_name == p.display_name
                &&& r.profile->0.status == p.status
                &&& r.profile->0.bio == p.bio
                &&& r.profile->0.avatar_seed@ == agent_id@
                &&& r.log.event_type@ == "profile_generated"@
                &&& r.log.summary@ == "Profile generated: "@ + text_or(
                    p.display_name,
                    "unnamed"@,
                ) + " — \""@ + text_or(p.status, "no status"@) + "\" ("@ + text::decimal(
                    duration_ms as nat,
                ) + "ms)"@
                &&& json::json_tree(r.log.details) == JsonTree::Object(
                    with_text(
                        with_number(
                            json::no_entries().insert(
                                "display_name"@,
                                optional_tree(p.display_name),
                            ).insert("status"@, optional_tree(p.status)),
                            "duration_ms"@,
                            duration_ms,
                        ),
                        "model"@,
                        model@,
                    ),
                )
            },
            Err(error) => {
                &&& r.profile is None
                &&& r.log.event_type@ == "profile_failed"@
                &&& r.log.summary@
                    == "Profile generation failed: could not parse LLM response — "@ + error@
                &&& json::json_tree(r.log.details) == JsonTree::Object(
                    with_text(
                        with_text(json::no_entries(), "error"@, error@),
                        "raw_response"@,
                        cleaned@,
                    ),
                )
            },
        },
{
    let mut details = object_json();
    match parsed {
        Ok(p) => {
            let summary = profile_summary(&p, duration_ms);
            json_set(&mut details, "display_name", optional_json(&p.display_name));
            json_set(&mut details, "status", optional_json(&p.status));
            json_set(&mut details, "duration_ms", number_json(duration_ms));
            json_set(&mut details, "model", text_json(model));
            ProfileOutcome {
                profile: Some(
                    NewProfile {
                        agent_id: agent_id.to_owned(),
                        display_name: p.display_name,
                        status: p.status,
                        bio: p.bio,
                        avatar_seed: agent_id.to_owned(),
                    },
                ),
                log: LogEntry { event_type: "profile_generated", summary, details },
            }
        },
        Err(error) => {
            json_set(&mut details, "error", text_json(error.as_str()));
            json_set(&mut details, "raw_response", text_json(cleaned));
            ProfileOutcome {
                profile: None,
                log: LogEntry {
                    event_type: "profile_failed",
                    summary: profile_unreadable(error.as_str()),
                    details,
                },
            }
        },
    }
}

/// A text that is not empty.
pub fn nonempty(s: String) -> (r: Option<String>)
    ensures
        r == (if s@.len() == 0 {
            None
        } else {
            Some(s)
        }),
{
    if s.as_str().is_empty() {
        None
    } else {
        Some(s)
    }
}

// ---------------------------------------------------------------------------
// Associations
// ---------------------------------------------------------------------------

/// The query for the memories of an association pass: all of them, or those since a
/// point in time.
pub fn association_query(since: bool) -> (r: &'static str)
    ensures
        r@ == (if since {
            "SELECT id FROM memories WHERE forgotten = 0 AND (created_at > ? OR updated_at > ?) ORDER BY created_at DESC"@
        } else {
            "SELECT id FROM memories WHERE forgotten = 0 ORDER BY importance DESC, created_at DESC"@
        }),
{
    if since {
        "SELECT id FROM memories WHERE forgotten = 0 AND (created_at > ? OR updated_at > ?) ORDER BY created_at DESC"
    } else {
        "SELECT id FROM memories WHERE forgotten = 0 ORDER BY importance DESC, created_at DESC"
    }
}

/// A memory that is similar to another.
pub struct SimilarMemory {
    pub target_id: String,
    /// Its similarity reaches the threshold for an update.
    pub is_update: bool,
    /// The weight of the association.
    pub weight: F32,
}

/// An association pass: it makes at most a number of associations.
pub struct AssociationPass {
    pub created: usize,
    pub max_per_pass: usize,
}

/// The association of a memory with a similar one.
pub open spec fn associates(source_id: Seq<char>, s: SimilarMemory, r: Association) -> bool {
    &&& r.id@.len() == 36
    &&& r.source_id@ == source_id
    &&& r.target_id@ == s.target_id@
    &&& r.relation_type == (if s.is_update {
        RelationType::Updates
    } else {
        RelationType::RelatedTo
    })
    &&& r.weight == s.weight
}

impl AssociationPass {
    /// More associations may be made.
    pub open spec fn has_room(&self) -> bool {
        self.created < self.max_per_pass
    }

    /// Whether more associations may be made.
    pub fn may_go_on(&self) -> (r: bool)
        ensures
            r == self.has_room(),
    {
        self.created < self.max_per_pass
    }

    /// The association with a similar memory: a near duplicate updates, another one
    /// is related. There is none once the pass has made as many as it may.
    pub fn associate(&self, source_id: &str, similar: &SimilarMemory, now: Timestamp) -> (r: Option<
        Association,
    >)
        ensures
            match r {
                Some(a) => self.has_room() && associates(source_id@, *similar, a) && a.created_at
                    == now,
                None => !self.has_room(),
            },
    {
        if !self.may_go_on() {
            return None;
        }
        Some(
            Association {
                id: fresh_id(),
                source_id: source_id.to_owned(),
                target_id: similar.target_id.clone(),
                relation_type: if similar.is_update {
                    RelationType::Updates
                } else {
                    RelationType::RelatedTo
                },
                weight: similar.weight,
                created_at: now,
            },
        )
    }

    /// Takes in that an association was stored, or that it could not be.
    pub fn stored(&mut self, succeeded: bool)
        requires
            old(self).has_room(),
        ensures
            final(self).max_per_pass == old(self).max_per_pass,
            final(self).created == old(self).created + (if succeeded {
                1int
            } else {
                0int
            }),
            final(self).created <= final(self).max_per_pass,
    {
        if succeeded {
            self.created = self.created + 1;
        }
    }

    /// Reports the pass, where it has made an association.
    pub fn summary(&self, memory_count: usize, is_backfill: bool) -> (r: Option<String>)
        ensures
            match r {
                Some(s) => self.created > 0 && s@ == (if is_backfill {
                    "Backfill: created "@ + text::decimal(self.created as nat)
                        + " associations from "@ + text::decimal(memory_count as nat)
                        + " memories"@
                } else {
                    "Created "@ + text::decimal(self.created as nat) + " associations from "@
                        + text::decimal(memory_count as nat) + " new memories"@
                }),
                None => self.created == 0,
            },
    {
        if self.created == 0 {
            return None;
        }
        let n = u64_text(self.created as u64);
        let m = u64_text(memory_count as u64);
        let mut out = if is_backfill {
            cat3("Backfill: created ", n.as_str(), " associations from ")
        } else {
            cat3("Created ", n.as_str(), " associations from ")
        };
        out.append(m.as_str());
        if is_backfill {
            out.append(" memories");
        } else {
            out.append(" new memories");
        }
        Some(out)
    }
}

/// The keys of the details differ.
proof fn lemma_detail_keys()
    ensures
        "word_count"@ != "sections"@,
        "word_count"@ != "duration_ms"@,
        "word_count"@ != "skipped"@,
        "word_count"@ != "error"@,
        "word_count"@ != "model"@,
        "sections"@ != "duration_ms"@,
        "sections"@ != "skipped"@,
        "sections"@ != "error"@,
        "sections"@ != "model"@,
        "duration_ms"@ != "skipped"@,
        "duration_ms"@ != "error"@,
        "duration_ms"@ != "model"@,
        "skipped"@ != "error"@,
        "skipped"@ != "model"@,
        "error"@ != "model"@,
{
    reveal_strlit("word_count");
    reveal_strlit("sections");
    reveal_strlit("duration_ms");
    reveal_strlit("skipped");
    reveal_strlit("error");
    reveal_strlit("model");
    assert("error"@[0] != "model"@[0]);
    assert("word_count"@.len() == 10);
    assert("sections"@.len() == 8);
    assert("duration_ms"@.len() == 11);
    assert("skipped"@.len() == 7);
    assert("error"@.len() == 5);
    assert("model"@.len() == 5);
}

/// A worker that completes, a memory that is saved and a compaction give a signal, which
/// says what it is about; other events give none.
pub proof fn law_signals_say_what_happened(event: ProcessEvent, percent: i64, s: Seq<char>)
    ensures
        event matches ProcessEvent::MemorySaved { memory_id } ==> signal_of(event, percent) == Some(
            SignalView::MemorySaved {
                memory_type: "unknown"@,
                content_summary: "memory "@ + memory_id@,
                importance: F32 { bits: 0x3f000000 },
            },
        ),
        event matches ProcessEvent::WorkerComplete { result, .. } ==> (result@.len() > 0
            && !result@.contains('\n') ==> signal_of(event, percent) == Some(
            SignalView::WorkerCompleted {
                task_summary: "completed task"@,
                result_summary: result@,
            },
        )),
        event matches ProcessEvent::WorkerComplete { result, .. } ==> (result@.len() == 0
            ==> signal_of(event, percent) == Some(
            SignalView::WorkerCompleted {
                task_summary: "completed task"@,
                result_summary: "done"@,
            },
        )),
        event matches ProcessEvent::CompactionTriggered { channel_id, .. } ==> signal_of(
            event,
            percent,
        ) == Some(
            SignalView::Compaction { channel_id: channel_id@, turns_compacted: percent },
        ),
        signal_of(event, percent) is Some <==> event is MemorySaved || event is WorkerComplete
            || event is CompactionTriggered,
{
    if let ProcessEvent::WorkerComplete { result, .. } = event {
        if !result@.contains('\n') {
            text::law_first_line_is_shown(result@, Seq::empty(), "done"@);
        }
        if result@.len() == 0 {
            assert(result@ =~= Seq::empty());
            text::law_first_line_is_shown(Seq::empty(), Seq::empty(), "done"@);
        }
    }
}

/// A hundred signals are kept: a new one comes last, and the oldest alone makes room for
/// it where there are as many.
pub proof fn law_oldest_signal_makes_room(v: Seq<SignalView>, s: SignalView, i: int)
    requires
        v.len() <= 100,
    ensures
        v.len() < 100 ==> with_signal(v, s) == v.push(s),
        v.len() == 100 ==> with_signal(v, s).len() == 100 && with_signal(v, s).last() == s && (0
            <= i < 99 ==> with_signal(v, s)[i] == v[i + 1]),
{
}

/// A record of the log is read as it was stored, with its details where they are JSON.
pub proof fn law_records_are_read(row: CortexEventRow, r: CortexEvent)
    requires
        event_from(row, r),
    ensures
        r.id@ == row.id@ && r.event_type@ == row.event_type@ && r.summary@ == row.summary@,
        r.details is Some <==> row.details is Some && json::parsed_json(row.details->0@) is Some,
        r.created_at@ == outside::stamp(Some(row.created_at)),
{
}

/// A memory stands on a line of its own in a section, with its type, its importance and
/// the first line of its content, below those before it.
pub proof fn law_memories_stand_on_their_lines(
    items: Seq<BulletinItem>,
    item: BulletinItem,
    label: Seq<char>,
)
    ensures
        item.content@.len() > 0 && !item.content@.contains('\n') ==> item_lines(items.push(item))
            == item_lines(items) + ("- ["@ + item.memory_type.name() + "] (importance: "@
            + item.importance@ + ") "@ + item.content@ + "\n"@),
        item_lines(Seq::empty()).len() == 0,
        section_text(label, None).len() == 0,
        section_text(label, Some(Seq::empty())).len() == 0,
        items.len() > 0 ==> section_text(label, Some(items)) == "### "@ + label + "\n\n"@
            + item_lines(items) + "\n"@,
{
    reveal_strlit("\n");
    assert("\n"@ == seq!['\n']);
    assert(items.push(item).drop_last() == items);
    if item.content@.len() > 0 && !item.content@.contains('\n') {
        text::law_first_line_is_shown(item.content@, Seq::empty(), item.content@);
        assert(item_line(item) == "- ["@ + item.memory_type.name() + "] (importance: "@
            + item.importance@ + ") "@ + item.content@ + "\n"@);
    }
}

/// The sections follow each other, each under the label of its place and with what was
/// found for it.
pub proof fn law_sections_follow_each_other(
    found: Seq<Option<Vec<BulletinItem>>>,
    more: Option<Vec<BulletinItem>>,
)
    requires
        found.len() < section_table().len(),
    ensures
        more matches Some(v) ==> gathered(found.push(more)) == gathered(found) + section_text(
            section_table()[found.len() as int].label,
            Some(v@),
        ),
        more is None ==> gathered(found.push(more)) == gathered(found),
        gathered(Seq::empty()).len() == 0,
{
    assert(found.push(more).drop_last() == found);
    assert(gathered(found) + Seq::<char>::empty() == gathered(found));
}

/// A bulletin has eight sections. Who the agent is comes first, each section asks for
/// memories of its own kind, and none asks for more than fifteen.
pub proof fn law_sections_of_the_bulletin(i: int)
    requires
        0 <= i < section_table().len(),
    ensures
        section_table().len() == 8,
        1 <= section_table()[i].max_results <= 15,
        section_table()[i].mode is Typed <==> section_table()[i].memory_type is Some,
        section_table()[0].memory_type == Some(MemoryType::Identity),
        section_table()[1].mode is Recent && section_table()[3].mode is Important,
        section_table()[2].memory_type == Some(MemoryType::Decision),
        section_table()[4].memory_type == Some(MemoryType::Preference),
        section_table()[5].memory_type == Some(MemoryType::Goal),
        section_table()[6].memory_type == Some(MemoryType::Event),
        section_table()[7].memory_type == Some(MemoryType::Observation),
        section_table()[i].mode is Important ==> section_table()[i].sort_by is Importance,
        section_table()[i].mode is Recent ==> section_table()[i].sort_by is Recent,
        section_table()[0].label == "Identity & Core Facts"@ && section_table()[1].label
            == "Recent Memories"@ && section_table()[2].label == "Decisions"@
            && section_table()[3].label == "High-Importance Context"@,
        section_table()[4].label == "Preferences & Patterns"@ && section_table()[5].label
            == "Active Goals"@ && section_table()[6].label == "Recent Events"@
            && section_table()[7].label == "Observations"@,
{
}

/// Where every search failed the bulletin before stays, and where there is nothing to
/// write about it becomes empty.
pub proof fn law_failures_keep_the_bulletin(
    found: Seq<Option<Vec<BulletinItem>>>,
    r: BulletinOutcome,
    duration_ms: u64,
    i: int,
)
    ensures
        0 <= i < found.len() && found[i] is Some ==> !all_failed(found),
        all_failed(found) ==> gathered(found).len() == 0,
        is_search_failure(r, duration_ms) ==> r.bulletin is None && !r.succeeded
            && r.log.event_type@ == "bulletin_failed"@,
        is_skip(r, duration_ms) ==> r.bulletin is Some && r.bulletin->0@.len() == 0 && r.succeeded
            && r.log.event_type@ == "bulletin_generated"@,
    decreases found.len(),
{
    if all_failed(found) && found.len() > 0 {
        let rest = found.drop_last();
        assert forall|k: int| 0 <= k < rest.len() implies (#[trigger] rest[k]) is None by {
            assert(rest[k] == found[k]);
        }
        law_failures_keep_the_bulletin(rest, r, duration_ms, i);
        assert(found[found.len() - 1] is None);
    }
}

/// What is logged names the time that was taken, and what was skipped or failed.
pub proof fn law_log_names_the_time(duration_ms: u64)
    ensures
        skipped_details(duration_ms) is Object && failed_details(duration_ms) is Object,
        skipped_details(duration_ms)->Object_0["duration_ms"@] == JsonTree::Unsigned(duration_ms),
        skipped_details(duration_ms)->Object_0["skipped"@] == JsonTree::Flag(true),
        skipped_details(duration_ms)->Object_0["word_count"@] == JsonTree::Unsigned(0),
        failed_details(duration_ms)->Object_0["duration_ms"@] == JsonTree::Unsigned(duration_ms),
        failed_details(duration_ms)->Object_0["error"@] == JsonTree::Text(
            "every section query failed"@,
        ),
{
    lemma_detail_keys();
}

/// A JSON text comes out of an answer as it is, without the fences and the white space
/// around it.
pub proof fn law_fences_are_taken_off(s: Seq<char>)
    requires
        s.len() >= 2,
        s[0] == '{',
        s.last() == '}',
    ensures
        unfenced(s) == s,
        unfenced("```json\n"@ + s + "\n```"@) == s,
        unfenced("```\n"@ + s + "\n```"@) == s,
{
    reveal_strlit("```json\n");
    reveal_strlit("```json");
    reveal_strlit("```");
    reveal_strlit("```\n");
    reveal_strlit("\n```");
    reveal_strlit("\n");
    let none = Seq::<char>::empty();
    let j = "```json"@;
    let f = "```"@;
    lemma_bare(s);
    assert(none + s + none == s);
    // Without fences.
    text::law_trimmed_text_is_what_stands_between(none, s, none);
    // Between fences that name the language.
    let a = "```json\n"@ + s + "\n```"@;
    text::law_trimmed_text_is_what_stands_between(none, a, none);
    assert(none + a + none == a);
    let a1 = "\n"@ + s + "\n```"@;
    assert(a == j + a1);
    text::law_repetitions_are_stripped_in_front(a1, j);
    assert(a1[0] == '\n');
    lemma_not_in_front(a1, j);
    lemma_not_in_front(a1, f);
    text::law_repetitions_are_stripped_in_front(a1, f);
    let m = "\n"@ + s + "\n"@;
    assert(a1 == m + f);
    text::law_repetitions_are_stripped_behind(m, f);
    lemma_not_behind(m, f);
    assert(m.last() == '\n');
    text::law_trimmed_text_is_what_stands_between("\n"@, s, "\n"@);
    // Between bare fences.
    let b = "```\n"@ + s + "\n```"@;
    text::law_trimmed_text_is_what_stands_between(none, b, none);
    assert(none + b + none == b);
    assert(b[3] == '\n');
    if j.is_prefix_of(b) {
        assert(b.subrange(0, 7)[3] == b[3]);
    }
    text::law_repetitions_are_stripped_in_front(b, j);
    assert(b == f + a1);
}

proof fn lemma_not_in_front(s: Seq<char>, p: Seq<char>)
    requires
        p.len() > 0,
        s.len() > 0,
        s[0] != p[0],
    ensures
        !p.is_prefix_of(s),
        text::strip_start(s, p) == s,
{
    if p.is_prefix_of(s) {
        assert(s.subrange(0, p.len() as int)[0] == s[0]);
    }
}

proof fn lemma_not_behind(s: Seq<char>, p: Seq<char>)
    requires
        p.len() > 0,
        s.len() > 0,
        s.last() != p.last(),
    ensures
        !p.is_suffix_of(s),
        text::strip_end(s, p) == s,
{
    if p.is_suffix_of(s) {
        let t = s.subrange(s.len() - p.len(), s.len() as int);
        assert(t[p.len() - 1] == s.last());
    }
}

proof fn lemma_bare(s: Seq<char>)
    requires
        s.len() >= 2,
        s[0] == '{',
        s.last() == '}',
    ensures
        text::strip_start(s, "```json"@) == s,
        text::strip_start(s, "```"@) == s,
        text::strip_end(s, "```"@) == s,
{
    reveal_strlit("```json");
    reveal_strlit("```");
    lemma_not_in_front(s, "```json"@);
    lemma_not_in_front(s, "```"@);
    lemma_not_behind(s, "```"@);
}

/// A near duplicate updates the memory it resembles and another one is related to it: the
/// association leads from the one to the other, with its weight.
pub proof fn law_similar_memories_are_linked(source: Seq<char>, s: SimilarMemory, r: Association)
    requires
        associates(source, s, r),
    ensures
        r.source_id@ == source && r.target_id@ == s.target_id@,
        s.is_update ==> r.relation_type is Updates,
        !s.is_update ==> r.relation_type is RelatedTo,
        r.weight == s.weight,
{
}

/// A pass may go on as long as it has made fewer associations than it may make.
pub proof fn law_pass_has_room(p: AssociationPass)
    ensures
        p.has_room() <==> p.created < p.max_per_pass,
{
}

/// A text that is there is used, and written as it is.
pub proof fn law_texts_of_a_profile(s: String, other: Seq<char>)
    ensures
        text_or(Some(s), other) == s@ && text_or(None, other) == other,
        optional_tree(Some(s)) == JsonTree::Text(s@) && optional_tree(None) is Null,
{
}

/// A bulletin is reported with its words, its sections and the time it took, and each
/// header in what it was made from is a section.
pub proof fn law_bulletins_are_reported(words: nat, sections: nat, ms: u64, raw: Seq<char>, i: nat)
    ensures
        generated_summary(words, sections, ms) == "Bulletin generated: "@ + text::decimal(words)
            + " words, "@ + text::decimal(sections) + " sections, "@ + text::decimal(ms as nat)
            + "ms"@,
        text::matches_at(raw, "### "@, i as int) && (forall|j: int|
            0 <= j < i ==> !text::matches_at(raw, "### "@, j)) ==> section_count(raw) == 1
            + text::count_from(raw, "### "@, i + 4),
        (forall|j: int| 0 <= j ==> !text::matches_at(raw, "### "@, j)) ==> section_count(raw) == 0,
{
    reveal_strlit("### ");
    text::law_occurrences_are_counted(raw, "### "@, 0, i);
}

} // verus!
