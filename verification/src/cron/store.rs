//! How scheduled prompts are stored, and the log of their executions.
use crate::bits;
use crate::bits::{to_i64, to_u64, to_u8};
use crate::conversation::channels;
use crate::conversation::channels::text_or_empty;
use vstd::prelude::*;

verus! {

/// A scheduled prompt.
pub struct CronConfig {
    pub id: String,
    pub prompt: String,
    pub interval_secs: u64,
    pub delivery_target: String,
    /// Active hours window in 24h format.
    pub active_hours: Option<(u8, u8)>,
    pub enabled: bool,
}

/// A scheduled prompt as it is stored. A column that cannot be read is none.
pub struct CronRow {
    pub id: Option<String>,
    pub prompt: Option<String>,
    pub interval_secs: Option<i64>,
    pub delivery_target: Option<String>,
    pub active_start_hour: Option<i64>,
    pub active_end_hour: Option<i64>,
    pub enabled: Option<i64>,
}

/// The active hours that two columns stand for: both, or none.
pub open spec fn stored_hours(start: Option<i64>, end: Option<i64>) -> Option<(u8, u8)> {
    match (start, end) {
        (Some(s), Some(e)) => Some(
            (bits::unsigned_8(s as int) as u8, bits::unsigned_8(e as int) as u8),
        ),
        _ => None,
    }
}

/// Reads the active hours of two columns.
pub fn hours_from(start: Option<i64>, end: Option<i64>) -> (r: Option<(u8, u8)>)
    ensures
        r == stored_hours(start, end),
{
    match (start, end) {
        (Some(s), Some(e)) => Some((to_u8(s), to_u8(e))),
        _ => None,
    }
}

/// `r` is the prompt that a row stands for.
pub open spec fn cron_from(row: CronRow, r: CronConfig) -> bool {
    &&& r.id@ == channels::or_empty(row.id)
    &&& r.prompt@ == channels::or_empty(row.prompt)
    &&& r.interval_secs == bits::unsigned_64(row.interval_secs.unwrap_or(3600) as int)
    &&& r.delivery_target@ == channels::or_empty(row.delivery_target)
    &&& r.active_hours == stored_hours(row.active_start_hour, row.active_end_hour)
    &&& r.enabled == (row.enabled.unwrap_or(1) != 0)
}

/// The prompt that a row stands for.
pub fn row_to_config(row: CronRow) -> (r: CronConfig)
    ensures
        cron_from(row, r),
{
    CronConfig {
        id: text_or_empty(row.id),
        prompt: text_or_empty(row.prompt),
        interval_secs: to_u64(row.interval_secs.unwrap_or(3600)),
        delivery_target: text_or_empty(row.delivery_target),
        active_hours: hours_from(row.active_start_hour, row.active_end_hour),
        enabled: row.enabled.unwrap_or(1) != 0,
    }
}

/// The prompts of rows, in order.
pub fn load_all(rows: Vec<CronRow>) -> (r: Vec<CronConfig>)
    ensures
        r@.len() == rows@.len(),
        forall|i: int| 0 <= i < r@.len() ==> cron_from(rows@[i], #[trigger] r@[i]),
{
    let mut out: Vec<CronConfig> = Vec::new();
    for row in it: rows
        invariant
            it.seq() == rows@,
            out@.len() == it.index(),
            forall|i: int| 0 <= i < out@.len() ==> cron_from(rows@[i], #[trigger] out@[i]),
    {
        out.push(row_to_config(row));
    }
    out
}

/// The row that a prompt is stored as.
pub open spec fn stored_row(c: CronConfig) -> CronRow {
    CronRow {
        id: Some(c.id),
        prompt: Some(c.prompt),
        interval_secs: Some(bits::signed_64(c.interval_secs) as i64),
        delivery_target: Some(c.delivery_target),
        active_start_hour: match c.active_hours {
            Some(h) => Some(h.0 as i64),
            None => None,
        },
        active_end_hour: match c.active_hours {
            Some(h) => Some(h.1 as i64),
            None => None,
        },
        enabled: Some(
            if c.enabled {
                1
            } else {
                0
            },
        ),
    }
}

/// The row that a prompt is stored as.
pub fn config_to_row(c: &CronConfig) -> (r: CronRow)
    ensures
        r == stored_row(*c),
{
    let (start, end) = match c.active_hours {
        Some(h) => (Some(h.0 as i64), Some(h.1 as i64)),
        None => (None, None),
    };
    CronRow {
        id: Some(c.id.clone()),
        prompt: Some(c.prompt.clone()),
        interval_secs: Some(to_i64(c.interval_secs)),
        delivery_target: Some(c.delivery_target.clone()),
        active_start_hour: start,
        active_end_hour: end,
        enabled: Some(
            if c.enabled {
                1
            } else {
                0
            },
        ),
    }
}

/// A prompt that was stored is read back as it was.
pub proof fn law_cron_round_trip(c: CronConfig, r: CronConfig)
    requires
        cron_from(stored_row(c), r),
    ensures
        r.id@ == c.id@,
        r.prompt@ == c.prompt@,
        r.interval_secs == c.interval_secs,
        r.delivery_target@ == c.delivery_target@,
        r.active_hours == c.active_hours,
        r.enabled == c.enabled,
{
    bits::lemma_u64_round_trip(c.interval_secs);
}

/// Entry in the cron execution log.
pub struct CronExecutionEntry {
    pub id: String,
    pub executed_at: String,
    pub success: bool,
    pub result_summary: Option<String>,
}

/// An execution as it is stored. A column that cannot be read is none.
pub struct ExecutionRow {
    pub id: Option<String>,
    pub executed_at: Option<String>,
    pub success: Option<i64>,
    pub result_summary: Option<String>,
}

/// `r` is the entry that a row stands for.
pub open spec fn entry_from(row: ExecutionRow, r: CronExecutionEntry) -> bool {
    &&& r.id@ == channels::or_empty(row.id)
    &&& r.executed_at@ == channels::or_empty(row.executed_at)
    &&& r.success == (row.success.unwrap_or(0) != 0)
    &&& r.result_summary == row.result_summary
}

/// The execution log of rows, in order.
pub fn load_executions(rows: Vec<ExecutionRow>) -> (r: Vec<CronExecutionEntry>)
    ensures
        r@.len() == rows@.len(),
        forall|i: int| 0 <= i < r@.len() ==> entry_from(rows@[i], #[trigger] r@[i]),
{
    let mut out: Vec<CronExecutionEntry> = Vec::new();
    for row in it: rows
        invariant
            it.seq() == rows@,
            out@.len() == it.index(),
            forall|i: int| 0 <= i < out@.len() ==> entry_from(rows@[i], #[trigger] out@[i]),
    {
        out.push(
            CronExecutionEntry {
                id: text_or_empty(row.id),
                executed_at: text_or_empty(row.executed_at),
                success: row.success.unwrap_or(0) != 0,
                result_summary: row.result_summary,
            },
        );
    }
    out
}

/// Execution statistics for a cron job.
pub struct CronExecutionStats {
    pub success_count: u64,
    pub failure_count: u64,
    pub last_executed_at: Option<String>,
}

impl Default for CronExecutionStats {
    fn default() -> (r: Self)
        ensures
            r == (CronExecutionStats {
                success_count: 0,
                failure_count: 0,
                last_executed_at: None,
            }),
    {
        CronExecutionStats { success_count: 0, failure_count: 0, last_executed_at: None }
    }
}

/// Statistics as the database counts them. A column that cannot be read is none.
pub struct StatsRow {
    pub success_count: Option<i64>,
    pub failure_count: Option<i64>,
    pub last_executed_at: Option<String>,
}

/// The statistics of a row, or empty ones where there is none.
pub fn stats_from(row: Option<StatsRow>) -> (r: CronExecutionStats)
    ensures
        r == (match row {
            Some(s) => CronExecutionStats {
                success_count: bits::unsigned_64(s.success_count.unwrap_or(0) as int) as u64,
                failure_count: bits::unsigned_64(s.failure_count.unwrap_or(0) as int) as u64,
                last_executed_at: s.last_executed_at,
            },
            None => CronExecutionStats {
                success_count: 0,
                failure_count: 0,
                last_executed_at: None,
            },
        }),
{
    match row {
        Some(s) => CronExecutionStats {
            success_count: to_u64(s.success_count.unwrap_or(0)),
            failure_count: to_u64(s.failure_count.unwrap_or(0)),
            last_executed_at: s.last_executed_at,
        },
        None => CronExecutionStats::default(),
    }
}

/// A row without columns stands for an enabled prompt that runs every hour, at any time
/// of the day. One that is switched off is not enabled, and hours count where both are
/// stored.
pub proof fn law_columns_that_are_missing(row: CronRow, r: CronConfig)
    requires
        cron_from(row, r),
    ensures
        row.interval_secs is None ==> r.interval_secs == 3600,
        row.enabled is None ==> r.enabled,
        row.enabled == Some(0i64) ==> !r.enabled,
        row.enabled == Some(1i64) ==> r.enabled,
        row.active_start_hour is None || row.active_end_hour is None ==> r.active_hours is None,
        row.active_start_hour matches Some(s) ==> (row.active_end_hour matches Some(e) ==> (0 <= s
            < 24 && 0 <= e < 24 ==> r.active_hours == Some((s as u8, e as u8)))),
        row.interval_secs matches Some(n) ==> (n >= 0 ==> r.interval_secs == n),
        row.id matches Some(x) ==> r.id@ == x@,
        row.prompt matches Some(x) ==> r.prompt@ == x@,
        row.delivery_target matches Some(x) ==> r.delivery_target@ == x@,
        row.prompt is None ==> r.prompt@.len() == 0,
{
}

/// An execution counts as a success where its row says so, and keeps its summary.
pub proof fn law_executions_are_read(row: ExecutionRow, r: CronExecutionEntry)
    requires
        entry_from(row, r),
    ensures
        r.success <==> row.success is Some && row.success->0 != 0,
        r.result_summary == row.result_summary,
        row.id matches Some(x) ==> r.id@ == x@,
        row.executed_at matches Some(x) ==> r.executed_at@ == x@,
{
}

} // verus!
