//! Figures for the dashboards: counts, activity by day, and time lines by page.
use crate::agent::cortex::CortexEvent;
use crate::api::state::AgentInfo;
use crate::api::ApiError;
use crate::bits;
use crate::bits::to_u64;
use crate::conversation::channels::ChannelInfo;
use crate::conversation::history::TimelineItem;
use crate::cron::store;
use crate::cron::store::hours_from;
use crate::config::clone_opt;
use crate::json;
use crate::json::{json_at, json_str};
use crate::message::Timestamp;
use crate::outside;
use crate::outside::{day, write_opt_stamp, write_stamp};
use crate::text;
use crate::text::{cat3, str_eq, text_precedes, u64_text};
use crate::text_map::TextMap;
use vstd::prelude::*;

verus! {

/// The number of things of one day.
pub struct DayCount {
    pub date: String,
    pub count: i64,
}

/// What happened on one day.
pub struct ActivityDayCount {
    pub date: String,
    pub branches: i64,
    pub workers: i64,
}

/// The sum of the counts of rows.
pub open spec fn total(rows: Seq<(String, i64)>) -> int
    decreases rows.len(),
{
    if rows.len() == 0 {
        0
    } else {
        total(rows.drop_last()) + rows.last().1
    }
}

/// The counts of rows by their names: the last one where a name comes twice.
pub open spec fn counts(rows: Seq<(String, i64)>) -> Map<Seq<char>, i64>
    decreases rows.len(),
{
    if rows.len() == 0 {
        Map::empty()
    } else {
        counts(rows.drop_last()).insert(rows.last().0@, rows.last().1)
    }
}

/// Sums of the first rows stay in range.
pub open spec fn sums_fit(rows: Seq<(String, i64)>) -> bool {
    forall|i: int| 0 <= i <= rows.len() ==> i64::MIN <= total(#[trigger] rows.take(i)) <= i64::MAX
}

/// The number of memories by type, and in all. The sums must stay in range.
pub fn memory_counts(rows: &Vec<(String, i64)>) -> (r: (TextMap<i64>, i64))
    requires
        sums_fit(rows@),
    ensures
        r.0@ == counts(rows@),
        r.1 == total(rows@),
{
    let mut map: TextMap<i64> = TextMap::new();
    let mut sum: i64 = 0;
    let n: usize = rows.len();
    let mut i: usize = 0;
    assert(map@ =~= counts(rows@.take(0)));
    while i < n
        invariant
            n == rows@.len(),
            i <= n,
            sums_fit(rows@),
            map@ == counts(rows@.take(i as int)),
            sum == total(rows@.take(i as int)),
        decreases n - i,
    {
        proof {
            assert(rows@.take(i + 1).drop_last() =~= rows@.take(i as int));
            assert(rows@.take(i + 1).last() == rows@[i as int]);
            assert(total(rows@.take(i + 1)) <= i64::MAX);
        }
        sum = sum + rows[i].1;
        map.insert(rows[i].0.clone(), rows[i].1);
        i = i + 1;
    }
    assert(rows@.take(n as int) =~= rows@);
    (map, sum)
}

/// The last count of a day among rows, where there is one.
pub open spec fn count_on(rows: Seq<DayCount>, date: Seq<char>) -> Option<i64>
    decreases rows.len(),
{
    if rows.len() == 0 {
        None
    } else if rows.last().date@ == date {
        Some(rows.last().count)
    } else {
        count_on(rows.drop_last(), date)
    }
}

/// A count, which is 0 where there is none.
pub open spec fn or_zero(count: Option<i64>) -> i64 {
    match count {
        Some(n) => n,
        None => 0,
    }
}

/// The last count of a day among rows.
fn find_count(rows: &Vec<DayCount>, date: &str) -> (r: i64)
    ensures
        r == or_zero(count_on(rows@, date@)),
{
    let mut i: usize = rows.len();
    assert(rows@.take(i as int) =~= rows@);
    while i > 0
        invariant
            i <= rows@.len(),
            count_on(rows@, date@) == count_on(rows@.take(i as int), date@),
        decreases i,
    {
        i = i - 1;
        assert(rows@.take(i + 1).drop_last() =~= rows@.take(i as int));
        assert(rows@.take(i + 1).last() == rows@[i as int]);
        if str_eq(rows[i].date.as_str(), date) {
            return rows[i].count;
        }
    }
    0
}

/// Seconds of a day.
pub const DAY_SECS: i64 = 86400;

/// Days that a sparkline shows.
pub const SPARKLINE_DAYS: usize = 14;

/// The count of the day that lies some days before a point in time.
pub open spec fn count_days_ago(rows: Seq<DayCount>, now_secs: i64, days: int) -> i64 {
    match outside::day_text((now_secs - days * DAY_SECS) as i64) {
        Some(date) => or_zero(count_on(rows, date)),
        None => 0,
    }
}

/// The counts of the last 14 days, one per day, the oldest first and today last,
/// 0 for missing days.
pub fn activity_sparkline(rows: &Vec<DayCount>, now_secs: i64) -> (r: Vec<i64>)
    requires
        now_secs >= i64::MIN + 13 * DAY_SECS,
    ensures
        r@.len() == SPARKLINE_DAYS,
        forall|i: int|
            0 <= i < SPARKLINE_DAYS ==> #[trigger] r@[i] == count_days_ago(
                rows@,
                now_secs,
                13 - i,
            ),
{
    let mut out: Vec<i64> = Vec::new();
    let mut i: usize = 0;
    while i < SPARKLINE_DAYS
        invariant
            i <= SPARKLINE_DAYS,
            out@.len() == i,
            now_secs >= i64::MIN + 13 * DAY_SECS,
            forall|j: int|
                0 <= j < i ==> #[trigger] out@[j] == count_days_ago(rows@, now_secs, 13 - j),
        decreases SPARKLINE_DAYS - i,
    {
        let back: i64 = (13 - i) as i64 * DAY_SECS;
        let count: i64 = match day(now_secs - back) {
            Some(date) => find_count(rows, date.as_str()),
            None => 0,
        };
        out.push(count);
        i = i + 1;
    }
    out
}

/// Days stand in their order, each once.
pub open spec fn in_order(days: Seq<ActivityDayCount>) -> bool {
    forall|i: int, j: int|
        0 <= i < j < days.len() ==> text::precedes(
            (#[trigger] days[i]).date@,
            (#[trigger] days[j]).date@,
        )
}

/// A day is among some.
pub open spec fn has_day(days: Seq<ActivityDayCount>, date: Seq<char>) -> bool {
    exists|i: int| 0 <= i < days.len() && (#[trigger] days[i]).date@ == date
}

/// The days are those of the rows, with the counts of the rows.
pub open spec fn counted(
    days: Seq<ActivityDayCount>,
    branches: Seq<DayCount>,
    workers: Seq<DayCount>,
) -> bool {
    &&& in_order(days)
    &&& forall|date: Seq<char>| #[trigger]
        has_day(days, date) == (count_on(branches, date) is Some || count_on(workers, date)
            is Some)
    &&& forall|i: int|
        0 <= i < days.len() ==> (#[trigger] days[i]).branches == or_zero(
            count_on(branches, days[i].date@),
        ) && days[i].workers == or_zero(count_on(workers, days[i].date@))
}

/// Days with a day among them, which is put in its place where it is missing.
pub open spec fn placed(
    before: Seq<ActivityDayCount>,
    after: Seq<ActivityDayCount>,
    date: Seq<char>,
    at: int,
) -> bool {
    &&& 0 <= at < after.len()
    &&& after[at].date@ == date
    &&& in_order(after)
    &&& after == before || (!has_day(before, date) && after[at].branches == 0 && after[at].workers
        == 0 && at <= before.len() && after == before.insert(at, after[at]))
}

/// Makes sure that a day is among some, and says where.
fn place_day(days: &mut Vec<ActivityDayCount>, date: &str) -> (r: usize)
    requires
        in_order(old(days)@),
    ensures
        placed(old(days)@, final(days)@, date@, r as int),
{
    let n: usize = days.len();
    let mut i: usize = 0;
    while i < n && text_precedes(days[i].date.as_str(), date)
        invariant
            n == days@.len(),
            i <= n,
            days@ == old(days)@,
            forall|j: int| 0 <= j < i ==> text::precedes((#[trigger] days@[j]).date@, date@),
        decreases n - i,
    {
        i = i + 1;
    }
    if i < n && str_eq(days[i].date.as_str(), date) {
        return i;
    }
    proof {
        if i < n {
            text::lemma_precedes_total(days@[i as int].date@, date@);
        }
        assert forall|j: int| i <= j < n implies text::precedes(
            date@,
            (#[trigger] days@[j]).date@,
        ) by {
            if j > i {
                text::lemma_precedes_transitive(
                    date@,
                    days@[i as int].date@,
                    days@[j].date@,
                );
            }
        }
        if has_day(days@, date@) {
            let k = choose|k: int| 0 <= k < days@.len() && (#[trigger] days@[k]).date@ == date@;
            text::lemma_precedes_irreflexive(date@);
        }
    }
    days.insert(i, ActivityDayCount { date: date.to_owned(), branches: 0, workers: 0 });
    i
}

/// What placing a day does to the days and their counts.
proof fn lemma_placed(
    before: Seq<ActivityDayCount>,
    after: Seq<ActivityDayCount>,
    date: Seq<char>,
    at: int,
)
    requires
        placed(before, after, date, at),
    ensures
        forall|d: Seq<char>| #[trigger]
            has_day(after, d) == (d == date || has_day(before, d)),
        forall|i: int|
            0 <= i < after.len() && i != at ==> has_day(before, (#[trigger] after[i]).date@)
                && exists|j: int|
                0 <= j < before.len() && #[trigger] before[j] == after[i],
        after == before ==> has_day(before, date),
        forall|i: int| 0 <= i < after.len() && i != at ==> (#[trigger] after[i]).date@ != date,
{
    assert forall|i: int| 0 <= i < after.len() && i != at implies (#[trigger] after[i]).date@
        != date by {
        text::lemma_precedes_irreflexive(date);
    }
    if after != before {
        assert forall|i: int| 0 <= i < after.len() && i != at implies has_day(
            before,
            (#[trigger] after[i]).date@,
        ) && exists|j: int| 0 <= j < before.len() && #[trigger] before[j] == after[i] by {
            if i < at {
                assert(before[i] == after[i]);
            } else {
                assert(before[i - 1] == after[i]);
            }
        }
        assert forall|d: Seq<char>| #[trigger]
            has_day(after, d) == (d == date || has_day(before, d)) by {
            if has_day(before, d) {
                let k = choose|k: int|
                    0 <= k < before.len() && (#[trigger] before[k]).date@ == d;
                if k < at {
                    assert(after[k] == before[k]);
                } else {
                    assert(after[k + 1] == before[k]);
                }
            }
            if d == date {
                assert(after[at].date@ == date);
            }
            if has_day(after, d) && d != date {
                let k = choose|k: int| 0 <= k < after.len() && (#[trigger] after[k]).date@ == d;
                assert(k != at);
                assert(has_day(before, after[k].date@));
            }
        }
    } else {
        assert(before[at].date@ == date);
        assert forall|i: int| 0 <= i < after.len() && i != at implies has_day(
            before,
            (#[trigger] after[i]).date@,
        ) && exists|j: int| 0 <= j < before.len() && #[trigger] before[j] == after[i] by {
            assert(before[i] == after[i]);
        }
    }
}

/// Adding the branches of a day keeps the days counted.
proof fn lemma_count_branch(
    before: Seq<ActivityDayCount>,
    mid: Seq<ActivityDayCount>,
    after: Seq<ActivityDayCount>,
    at: int,
    branches: Seq<DayCount>,
    workers: Seq<DayCount>,
)
    requires
        branches.len() > 0,
        counted(before, branches.drop_last(), workers),
        placed(before, mid, branches.last().date@, at),
        after.len() == mid.len(),
        forall|i: int| 0 <= i < mid.len() && i != at ==> #[trigger] after[i] == mid[i],
        after[at].date@ == mid[at].date@,
        after[at].workers == mid[at].workers,
        after[at].branches == branches.last().count,
    ensures
        counted(after, branches, workers),
{
    let date = branches.last().date@;
    lemma_placed(before, mid, date, at);
    assert forall|i: int| 0 <= i < mid.len() implies (#[trigger] after[i]).date@ == mid[i].date@ by {
        if i != at {
            assert(after[i] == mid[i]);
        }
    }
    assert forall|d: Seq<char>| #[trigger]
        has_day(after, d) == (count_on(branches, d) is Some || count_on(workers, d) is Some) by {
        assert(has_day(mid, d) == (d == date || has_day(before, d)));
        assert(has_day(before, d) == (count_on(branches.drop_last(), d) is Some || count_on(
            workers,
            d,
        ) is Some));
        if has_day(after, d) {
            let k = choose|k: int| 0 <= k < after.len() && (#[trigger] after[k]).date@ == d;
            assert(mid[k].date@ == d);
        }
        if has_day(mid, d) {
            let k = choose|k: int| 0 <= k < mid.len() && (#[trigger] mid[k]).date@ == d;
            assert(after[k].date@ == d);
        }
    }
    assert forall|i: int| 0 <= i < after.len() implies (#[trigger] after[i]).branches == or_zero(
        count_on(branches, after[i].date@),
    ) && after[i].workers == or_zero(count_on(workers, after[i].date@)) by {
        if i == at {
            if mid == before {
                assert(before[at].date@ == date);
            } else {
                assert(!has_day(before, date));
            }
        } else {
            assert(mid[i].date@ != date);
            let j = choose|j: int| 0 <= j < before.len() && #[trigger] before[j] == mid[i];
            assert(before[j].branches == or_zero(
                count_on(branches.drop_last(), before[j].date@),
            ));
        }
    }
}

/// Adding the workers of a day keeps the days counted.
proof fn lemma_count_worker(
    before: Seq<ActivityDayCount>,
    mid: Seq<ActivityDayCount>,
    after: Seq<ActivityDayCount>,
    at: int,
    branches: Seq<DayCount>,
    workers: Seq<DayCount>,
)
    requires
        workers.len() > 0,
        counted(before, branches, workers.drop_last()),
        placed(before, mid, workers.last().date@, at),
        after.len() == mid.len(),
        forall|i: int| 0 <= i < mid.len() && i != at ==> #[trigger] after[i] == mid[i],
        after[at].date@ == mid[at].date@,
        after[at].branches == mid[at].branches,
        after[at].workers == workers.last().count,
    ensures
        counted(after, branches, workers),
{
    let date = workers.last().date@;
    lemma_placed(before, mid, date, at);
    assert forall|i: int| 0 <= i < mid.len() implies (#[trigger] after[i]).date@ == mid[i].date@ by {
        if i != at {
            assert(after[i] == mid[i]);
        }
    }
    assert forall|d: Seq<char>| #[trigger]
        has_day(after, d) == (count_on(branches, d) is Some || count_on(workers, d) is Some) by {
        assert(has_day(mid, d) == (d == date || has_day(before, d)));
        assert(has_day(before, d) == (count_on(branches, d) is Some || count_on(
            workers.drop_last(),
            d,
        ) is Some));
        if has_day(after, d) {
            let k = choose|k: int| 0 <= k < after.len() && (#[trigger] after[k]).date@ == d;
            assert(mid[k].date@ == d);
        }
        if has_day(mid, d) {
            let k = choose|k: int| 0 <= k < mid.len() && (#[trigger] mid[k]).date@ == d;
            assert(after[k].date@ == d);
        }
    }
    assert forall|i: int| 0 <= i < after.len() implies (#[trigger] after[i]).branches == or_zero(
        count_on(branches, after[i].date@),
    ) && after[i].workers == or_zero(count_on(workers, after[i].date@)) by {
        if i == at {
            if mid == before {
                assert(before[at].date@ == date);
            } else {
                assert(!has_day(before, date));
            }
        } else {
            assert(mid[i].date@ != date);
            let j = choose|j: int| 0 <= j < before.len() && #[trigger] before[j] == mid[i];
            assert(before[j].workers == or_zero(count_on(workers.drop_last(), before[j].date@)));
        }
    }
}

/// The activity of each day on which there was some, day by day: its branches and
/// its workers.
pub fn activity_daily(branches: &Vec<DayCount>, workers: &Vec<DayCount>) -> (r: Vec<
    ActivityDayCount,
>)
    ensures
        counted(r@, branches@, workers@),
{
    let mut days: Vec<ActivityDayCount> = Vec::new();
    let n: usize = branches.len();
    let mut i: usize = 0;
    while i < n
        invariant
            n == branches@.len(),
            i <= n,
            counted(days@, branches@.take(i as int), Seq::<DayCount>::empty()),
        decreases n - i,
    {
        let ghost before = days@;
        let at: usize = place_day(&mut days, branches[i].date.as_str());
        let ghost mid = days@;
        days[at].branches = branches[i].count;
        proof {
            assert(branches@.take(i + 1).drop_last() =~= branches@.take(i as int));
            lemma_count_branch(
                before,
                mid,
                days@,
                at as int,
                branches@.take(i + 1),
                Seq::empty(),
            );
        }
        i = i + 1;
    }
    assert(branches@.take(n as int) =~= branches@);
    let m: usize = workers.len();
    let mut j: usize = 0;
    assert(workers@.take(0) =~= Seq::<DayCount>::empty());
    while j < m
        invariant
            m == workers@.len(),
            j <= m,
            counted(days@, branches@, workers@.take(j as int)),
        decreases m - j,
    {
        let ghost before = days@;
        let at: usize = place_day(&mut days, workers[j].date.as_str());
        let ghost mid = days@;
        days[at].workers = workers[j].count;
        proof {
            assert(workers@.take(j + 1).drop_last() =~= workers@.take(j as int));
            lemma_count_worker(before, mid, days@, at as int, branches@, workers@.take(j + 1));
        }
        j = j + 1;
    }
    assert(workers@.take(m as int) =~= workers@);
    days
}

/// A scheduled prompt, as the dashboard shows it.
pub struct CronJobInfo {
    pub id: String,
    pub prompt: String,
    pub interval_secs: u64,
    pub delivery_target: String,
    pub enabled: bool,
    pub active_hours: Option<(u8, u8)>,
}

/// A scheduled prompt as it is stored. Hours that cannot be read are none.
pub struct CronJobRow {
    pub id: String,
    pub prompt: String,
    pub interval_secs: i64,
    pub delivery_target: String,
    pub enabled: i64,
    pub active_start_hour: Option<i64>,
    pub active_end_hour: Option<i64>,
}

/// `r` shows the prompt of a row.
pub open spec fn shows_job(row: CronJobRow, r: CronJobInfo) -> bool {
    &&& r.id@ == row.id@
    &&& r.prompt@ == row.prompt@
    &&& r.interval_secs == bits::unsigned_64(row.interval_secs as int)
    &&& r.delivery_target@ == row.delivery_target@
    &&& r.enabled == (row.enabled != 0)
    &&& r.active_hours == store::stored_hours(row.active_start_hour, row.active_end_hour)
}

/// The scheduled prompts of rows, in order.
pub fn cron_jobs(rows: Vec<CronJobRow>) -> (r: Vec<CronJobInfo>)
    ensures
        r@.len() == rows@.len(),
        forall|i: int| 0 <= i < r@.len() ==> shows_job(rows@[i], #[trigger] r@[i]),
{
    let mut out: Vec<CronJobInfo> = Vec::new();
    for row in it: rows
        invariant
            it.seq() == rows@,
            out@.len() == it.index(),
            forall|i: int| 0 <= i < out@.len() ==> shows_job(rows@[i], #[trigger] out@[i]),
    {
        out.push(
            CronJobInfo {
                id: row.id,
                prompt: row.prompt,
                interval_secs: to_u64(row.interval_secs),
                delivery_target: row.delivery_target,
                enabled: row.enabled != 0,
                active_hours: hours_from(row.active_start_hour, row.active_end_hour),
            },
        );
    }
    out
}

/// When the latest of some bulletins was written.
pub open spec fn bulletin_time(events: Seq<CortexEvent>) -> Option<Seq<char>> {
    if events.len() == 0 {
        None
    } else {
        Some(events[0].created_at@)
    }
}

/// The text of the latest of some bulletins, where its details hold one.
pub open spec fn bulletin_text(events: Seq<CortexEvent>) -> Option<Seq<char>> {
    if events.len() == 0 {
        None
    } else {
        match events[0].details {
            Some(d) => json::as_text(json::at(json::json_tree(d), "bulletin_text"@)),
            None => None,
        }
    }
}

/// When the latest bulletin was written, and its text: those of the first event,
/// the text where its details hold one.
pub fn latest_bulletin(events: &Vec<CortexEvent>) -> (r: (Option<String>, Option<String>))
    ensures
        text::opt_text(r.0) == bulletin_time(events@),
        text::opt_text(r.1) == bulletin_text(events@),
{
    if events.len() == 0 {
        return (None, None);
    }
    let text = match &events[0].details {
        Some(d) => match json_str(json_at(d, "bulletin_text")) {
            Some(s) => Some(s.to_owned()),
            None => None,
        },
        None => None,
    };
    (Some(events[0].created_at.clone()), text)
}

/// A point in time that no channel's last activity comes after, if there are
/// channels.
pub open spec fn is_latest(channels: Seq<ChannelInfo>, r: Option<Timestamp>) -> bool {
    match r {
        Some(t) => (exists|i: int|
            0 <= i < channels.len() && (#[trigger] channels[i]).last_activity_at == t)
            && forall|i: int|
            0 <= i < channels.len() ==> !t.before((#[trigger] channels[i]).last_activity_at),
        None => channels.len() == 0,
    }
}

/// The most recent activity across channels.
pub fn last_activity(channels: &Vec<ChannelInfo>) -> (r: Option<Timestamp>)
    ensures
        is_latest(channels@, r),
{
    let n: usize = channels.len();
    if n == 0 {
        return None;
    }
    let mut best: usize = 0;
    let mut i: usize = 1;
    while i < n
        invariant
            n == channels@.len(),
            1 <= i <= n,
            best < n,
            forall|j: int|
                0 <= j < i ==> !channels@[best as int].last_activity_at.before(
                    (#[trigger] channels@[j]).last_activity_at,
                ),
        decreases n - i,
    {
        if channels[best].last_activity_at.is_before(&channels[i].last_activity_at) {
            best = i;
        }
        i = i + 1;
    }
    Some(channels[best].last_activity_at)
}

/// What is stored of an agent.
pub struct AgentActivity {
    pub channels: Vec<ChannelInfo>,
    pub memory_total: i64,
    pub cron_jobs: i64,
    /// Messages by day.
    pub messages: Vec<DayCount>,
    /// The latest bulletin first.
    pub bulletins: Vec<CortexEvent>,
}

/// Summary of a single agent for the dashboard.
pub struct AgentSummary {
    pub id: String,
    /// Number of active channels.
    pub channel_count: usize,
    /// Total memory count.
    pub memory_total: i64,
    /// Number of cron jobs.
    pub cron_job_count: u64,
    /// 14-day activity sparkline (messages per day).
    pub activity_sparkline: Vec<i64>,
    /// Most recent activity across all channels.
    pub last_activity_at: Option<String>,
    /// Last bulletin generation time.
    pub last_bulletin_at: Option<String>,
}

/// `r` summarises what is stored of an agent.
pub open spec fn summarises(
    id: Seq<char>,
    a: AgentActivity,
    now_secs: i64,
    r: AgentSummary,
) -> bool {
    &&& r.id@ == id
    &&& r.channel_count == a.channels@.len()
    &&& r.memory_total == a.memory_total
    &&& r.cron_job_count == bits::unsigned_64(a.cron_jobs as int)
    &&& r.activity_sparkline@.len() == SPARKLINE_DAYS
    &&& forall|i: int|
        0 <= i < SPARKLINE_DAYS ==> #[trigger] r.activity_sparkline@[i] == count_days_ago(
            a.messages@,
            now_secs,
            13 - i,
        )
    &&& exists|t: Option<Timestamp>| #[trigger]
        is_latest(a.channels@, t) && text::opt_text(r.last_activity_at) == outside::opt_stamp(t)
    &&& text::opt_text(r.last_bulletin_at) == bulletin_time(a.bulletins@)
}

/// The summary of an agent.
pub fn agent_summary(id: &str, a: &AgentActivity, now_secs: i64) -> (r: AgentSummary)
    requires
        now_secs >= i64::MIN + 13 * DAY_SECS,
    ensures
        summarises(id@, *a, now_secs, r),
{
    let last = last_activity(&a.channels);
    let (last_bulletin_at, _) = latest_bulletin(&a.bulletins);
    AgentSummary {
        id: id.to_owned(),
        channel_count: a.channels.len(),
        memory_total: a.memory_total,
        cron_job_count: to_u64(a.cron_jobs),
        activity_sparkline: activity_sparkline(&a.messages, now_secs),
        last_activity_at: write_opt_stamp(&last),
        last_bulletin_at,
    }
}

/// The positions of the agents of which something is stored.
pub open spec fn stored(found: Seq<Option<AgentActivity>>) -> Seq<int>
    decreases found.len(),
{
    if found.len() == 0 {
        Seq::empty()
    } else {
        let rest = stored(found.drop_last());
        if found.last() is Some {
            rest.push(found.len() - 1)
        } else {
            rest
        }
    }
}

/// The positions are those of agents of which something is stored.
pub proof fn lemma_stored(found: Seq<Option<AgentActivity>>)
    ensures
        forall|k: int|
            0 <= k < stored(found).len() ==> 0 <= #[trigger] stored(found)[k] < found.len()
                && found[stored(found)[k]] is Some,
    decreases found.len(),
{
    if found.len() > 0 {
        lemma_stored(found.drop_last());
        let rest = stored(found.drop_last());
        assert forall|k: int| 0 <= k < stored(found).len() implies 0 <= #[trigger] stored(found)[k]
            < found.len() && found[stored(found)[k]] is Some by {
            if k < rest.len() {
                assert(stored(found)[k] == rest[k]);
                assert(found.drop_last()[rest[k]] == found[rest[k]]);
            }
        }
    }
}

/// The summaries of the agents of which something is stored, in order.
pub open spec fn summarises_all(
    agents: Seq<AgentInfo>,
    found: Seq<Option<AgentActivity>>,
    now_secs: i64,
    r: Seq<AgentSummary>,
) -> bool {
    &&& r.len() == stored(found).len()
    &&& forall|k: int|
        0 <= k < r.len() ==> summarises(
            agents[stored(found)[k]].id@,
            found[stored(found)[k]]->0,
            now_secs,
            #[trigger] r[k],
        )
}

/// Get instance-wide overview for the main dashboard: a summary of each agent of
/// which something is stored.
pub fn instance_overview(
    agents: &Vec<AgentInfo>,
    found: &Vec<Option<AgentActivity>>,
    now_secs: i64,
) -> (r: Vec<AgentSummary>)
    requires
        found@.len() == agents@.len(),
        now_secs >= i64::MIN + 13 * DAY_SECS,
    ensures
        summarises_all(agents@, found@, now_secs, r@),
{
    let mut out: Vec<AgentSummary> = Vec::new();
    let n: usize = found.len();
    let mut i: usize = 0;
    while i < n
        invariant
            n == found@.len(),
            n == agents@.len(),
            i <= n,
            now_secs >= i64::MIN + 13 * DAY_SECS,
            summarises_all(agents@, found@.take(i as int), now_secs, out@),
        decreases n - i,
    {
        let ghost before = out@;
        let ghost s = stored(found@.take(i as int));
        assert(found@.take(i + 1).drop_last() =~= found@.take(i as int));
        assert(found@.take(i + 1).last() == found@[i as int]);
        if let Some(a) = &found[i] {
            out.push(agent_summary(agents[i].id.as_str(), a, now_secs));
        }
        proof {
            let t = stored(found@.take(i + 1));
            lemma_stored(found@.take(i as int));
            assert forall|k: int| 0 <= k < out@.len() implies summarises(
                agents@[t[k]].id@,
                found@.take(i + 1)[t[k]]->0,
                now_secs,
                #[trigger] out@[k],
            ) by {
                if k < before.len() {
                    assert(out@[k] == before[k]);
                    assert(t[k] == s[k]);
                    assert(found@.take(i as int)[s[k]] == found@.take(i + 1)[s[k]]);
                }
            }
        }
        i = i + 1;
    }
    assert(found@.take(n as int) =~= found@);
    out
}

/// The messages of one hour of the week.
pub struct HeatmapCell {
    pub day: i64,
    pub hour: i64,
    pub count: i64,
}

/// What the store gave back for the overview of an agent. What could not be read is
/// none.
pub struct AgentRows {
    /// Memories by type.
    pub memories: Option<Vec<(String, i64)>>,
    /// Active channels.
    pub channels: Option<Vec<ChannelInfo>>,
    pub cron_jobs: Option<Vec<CronJobRow>>,
    /// The latest bulletin first.
    pub bulletins: Option<Vec<CortexEvent>>,
    /// The last events, the latest first.
    pub recent_events: Option<Vec<CortexEvent>>,
    /// New memories by day.
    pub memory_daily: Option<Vec<DayCount>>,
    /// Branches by day.
    pub branches: Option<Vec<DayCount>>,
    /// Workers by day.
    pub workers: Option<Vec<DayCount>>,
    /// Messages by day of the week and hour.
    pub heatmap: Option<Vec<HeatmapCell>>,
}

/// Overview stats for an agent.
pub struct AgentOverviewResponse {
    /// Memory count by type.
    pub memory_counts: TextMap<i64>,
    /// Total memory count.
    pub memory_total: i64,
    /// Active channel count for this agent.
    pub channel_count: usize,
    /// Cron jobs (all, not just enabled).
    pub cron_jobs: Vec<CronJobInfo>,
    /// Last cortex bulletin event time, if any.
    pub last_bulletin_at: Option<String>,
    /// Recent cortex events (last 5).
    pub recent_cortex_events: Vec<CortexEvent>,
    /// Daily memory creation counts for the last 30 days.
    pub memory_daily: Vec<DayCount>,
    /// Daily activity counts (branches, workers) for the last 30 days.
    pub activity_daily: Vec<ActivityDayCount>,
    /// Activity heatmap: messages per day-of-week/hour.
    pub activity_heatmap: Vec<HeatmapCell>,
    /// Latest cortex bulletin text, if any.
    pub latest_bulletin: Option<String>,
}

/// Rows, of which there are none where they could not be read.
pub open spec fn given<A>(rows: Option<Vec<A>>) -> Seq<A> {
    match rows {
        Some(v) => v@,
        None => Seq::empty(),
    }
}

/// Takes rows, or none where they could not be read.
fn rows_or_none<A>(rows: Option<Vec<A>>) -> (r: Vec<A>)
    ensures
        r@ == given(rows),
{
    match rows {
        Some(v) => v,
        None => Vec::new(),
    }
}

/// `r` shows what the store gave back of an agent whose memories were counted.
pub open spec fn shows_agent(rows: AgentRows, r: AgentOverviewResponse) -> bool {
    &&& r.memory_counts@ == counts(given(rows.memories))
    &&& r.memory_total == total(given(rows.memories))
    &&& r.channel_count == given(rows.channels).len()
    &&& r.cron_jobs@.len() == given(rows.cron_jobs).len()
    &&& forall|i: int|
        0 <= i < r.cron_jobs@.len() ==> shows_job(
            given(rows.cron_jobs)[i],
            #[trigger] r.cron_jobs@[i],
        )
    &&& text::opt_text(r.last_bulletin_at) == bulletin_time(given(rows.bulletins))
    &&& r.recent_cortex_events@ == given(rows.recent_events)
    &&& r.memory_daily@ == given(rows.memory_daily)
    &&& counted(r.activity_daily@, given(rows.branches), given(rows.workers))
    &&& r.activity_heatmap@ == given(rows.heatmap)
    &&& text::opt_text(r.latest_bulletin) == bulletin_text(given(rows.bulletins))
}

/// Get overview stats for an agent: memory breakdown, channels, cron, cortex. An
/// agent that is not there is not found, and memories that could not be counted are
/// an error; other rows that could not be read are left out. The sums of the counts
/// must stay in range.
pub fn agent_overview(found: Option<AgentRows>) -> (r: Result<AgentOverviewResponse, ApiError>)
    requires
        found is Some && found->0.memories is Some ==> sums_fit(found->0.memories->0@),
    ensures
        match r {
            Ok(shown) => found is Some && found->0.memories is Some && shows_agent(found->0, shown),
            Err(ApiError::NotFound) => found is None,
            Err(ApiError::Internal) => found is Some && found->0.memories is None,
            Err(_) => false,
        },
{
    let rows = match found {
        Some(rows) => rows,
        None => {
            return Err(ApiError::NotFound);
        },
    };
    let memories = match rows.memories {
        Some(memories) => memories,
        None => {
            return Err(ApiError::Internal);
        },
    };
    let (memory_counts, memory_total) = memory_counts(&memories);
    let channels = rows_or_none(rows.channels);
    let bulletins = rows_or_none(rows.bulletins);
    let (last_bulletin_at, latest_bulletin) = latest_bulletin(&bulletins);
    let branches = rows_or_none(rows.branches);
    let workers = rows_or_none(rows.workers);
    Ok(
        AgentOverviewResponse {
            memory_counts,
            memory_total,
            channel_count: channels.len(),
            cron_jobs: cron_jobs(rows_or_none(rows.cron_jobs)),
            last_bulletin_at,
            recent_cortex_events: rows_or_none(rows.recent_events),
            memory_daily: rows_or_none(rows.memory_daily),
            activity_daily: activity_daily(&branches, &workers),
            activity_heatmap: rows_or_none(rows.heatmap),
            latest_bulletin,
        },
    )
}

/// A channel, as the API shows it.
pub struct ChannelResponse {
    pub agent_id: String,
    pub id: String,
    pub platform: String,
    pub display_name: Option<String>,
    pub is_active: bool,
    pub last_activity_at: String,
    pub created_at: String,
}

/// `r` shows a channel of an agent.
pub open spec fn shows_channel(agent_id: Seq<char>, c: ChannelInfo, r: ChannelResponse) -> bool {
    &&& r.agent_id@ == agent_id
    &&& r.id@ == c.id@
    &&& r.platform@ == c.platform@
    &&& text::opt_text(r.display_name) == text::opt_text(c.display_name)
    &&& r.is_active == c.is_active
    &&& r.last_activity_at@ == outside::stamp(Some(c.last_activity_at))
    &&& r.created_at@ == outside::stamp(Some(c.created_at))
}

/// The channels of an agent, as the API shows them.
pub fn channel_responses(agent_id: &str, channels: &Vec<ChannelInfo>) -> (r: Vec<ChannelResponse>)
    ensures
        r@.len() == channels@.len(),
        forall|i: int|
            0 <= i < r@.len() ==> shows_channel(agent_id@, channels@[i], #[trigger] r@[i]),
{
    let mut out: Vec<ChannelResponse> = Vec::new();
    let n: usize = channels.len();
    let mut i: usize = 0;
    while i < n
        invariant
            n == channels@.len(),
            i <= n,
            out@.len() == i,
            forall|j: int|
                0 <= j < i ==> shows_channel(agent_id@, channels@[j], #[trigger] out@[j]),
        decreases n - i,
    {
        let c = &channels[i];
        out.push(
            ChannelResponse {
                agent_id: agent_id.to_owned(),
                id: c.id.clone(),
                platform: c.platform.clone(),
                display_name: clone_opt(&c.display_name),
                is_active: c.is_active,
                last_activity_at: write_stamp(&Some(c.last_activity_at)),
                created_at: write_stamp(&Some(c.created_at)),
            },
        );
        i = i + 1;
    }
    out
}

/// Items of a page where a request names no number.
pub const DEFAULT_MESSAGE_LIMIT: i64 = 20;

/// Items of a page at most.
pub const MAX_MESSAGE_LIMIT: i64 = 100;

/// The number of items of a page.
pub open spec fn page_limit(limit: i64) -> i64 {
    if limit < MAX_MESSAGE_LIMIT {
        limit
    } else {
        MAX_MESSAGE_LIMIT
    }
}

/// The number of items to fetch for a page: one more than it shows, which tells
/// whether there are more pages.
pub fn fetch_limit(limit: i64) -> (r: i64)
    ensures
        r == page_limit(limit) + 1,
{
    let l: i64 = if limit < MAX_MESSAGE_LIMIT {
        limit
    } else {
        MAX_MESSAGE_LIMIT
    };
    l + 1
}

/// A page of the time line of a channel.
pub struct MessagesResponse {
    pub items: Vec<TimelineItem>,
    pub has_more: bool,
}

/// The page that fetched items make: the last ones, where there are more than it
/// shows.
pub fn timeline_page(limit: i64, fetched: Vec<TimelineItem>) -> (r: MessagesResponse)
    requires
        limit >= 0 || fetched@.len() == 0,
    ensures
        fetched@.len() == 0 ==> r.items@.len() == 0 && !r.has_more,
        fetched@.len() > 0 ==> r.has_more == (fetched@.len() > page_limit(limit)),
        fetched@.len() > 0 ==> r.items@ == (if r.has_more {
            fetched@.skip(fetched@.len() - page_limit(limit))
        } else {
            fetched@
        }),
{
    if fetched.len() == 0 {
        return MessagesResponse { items: Vec::new(), has_more: false };
    }
    let l: usize = if limit < MAX_MESSAGE_LIMIT {
        limit as usize
    } else {
        MAX_MESSAGE_LIMIT as usize
    };
    let n: usize = fetched.len();
    if n > l {
        let mut all = fetched;
        let items = all.split_off(n - l);
        assert(items@ =~= fetched@.skip(fetched@.len() - page_limit(limit)));
        MessagesResponse { items, has_more: true }
    } else {
        MessagesResponse { items: fetched, has_more: false }
    }
}

/// A page shows as many items as it may, or all that there are.
pub proof fn law_page_is_full(limit: i64, fetched: Seq<TimelineItem>, items: Seq<TimelineItem>)
    requires
        limit >= 0,
        items == (if fetched.len() > page_limit(limit) {
            fetched.skip(fetched.len() - page_limit(limit))
        } else {
            fetched
        }),
    ensures
        items.len() == (if fetched.len() > page_limit(limit) {
            page_limit(limit) as nat
        } else {
            fetched.len()
        }),
        items.len() <= MAX_MESSAGE_LIMIT,
{
}

/// What a client is told that missed events.
pub fn lagged_data(count: u64) -> (r: String)
    ensures
        r@ == "{\"skipped\":"@ + text::decimal(count as nat) + "}"@,
{
    let n = u64_text(count);
    cat3("{\"skipped\":", n.as_str(), "}")
}

/// The total is the sum of the counts, and a name has its last count.
pub proof fn law_rows_are_counted(
    rows: Seq<(String, i64)>,
    row: (String, i64),
    other: Seq<char>,
)
    ensures
        total(Seq::empty()) == 0,
        total(rows.push(row)) == total(rows) + row.1,
        counts(rows.push(row)).contains_key(row.0@) && counts(rows.push(row))[row.0@] == row.1,
        other != row.0@ ==> counts(rows.push(row)).contains_key(other) == counts(rows).contains_key(
            other,
        ),
        other != row.0@ && counts(rows).contains_key(other) ==> counts(rows.push(row))[other]
            == counts(rows)[other],
        !counts(Seq::empty()).contains_key(other),
{
    assert(rows.push(row).drop_last() == rows);
}

/// A day has the count of its last row, and none where it has no row, which counts as 0.
pub proof fn law_days_are_counted(rows: Seq<DayCount>, row: DayCount, date: Seq<char>)
    ensures
        row.date@ == date ==> count_on(rows.push(row), date) == Some(row.count),
        row.date@ != date ==> count_on(rows.push(row), date) == count_on(rows, date),
        count_on(Seq::empty(), date) is None,
        or_zero(Some(row.count)) == row.count && or_zero(None) == 0,
{
    assert(rows.push(row).drop_last() == rows);
}

/// The count of some days ago is that of the day which lies so many times 86400 seconds
/// back, and 0 where there is none.
pub proof fn law_days_lie_apart(rows: Seq<DayCount>, row: DayCount, now_secs: i64, days: int)
    requires
        0 <= days < 14,
        now_secs >= i64::MIN + 13 * 86400,
    ensures
        outside::day_text((now_secs - days * 86400) as i64) == Some(row.date@) ==> count_days_ago(
            rows.push(row),
            now_secs,
            days,
        ) == row.count,
        count_days_ago(Seq::empty(), now_secs, days) == 0,
{
    law_days_are_counted(rows, row, row.date@);
}

/// The days with a branch or a worker are shown, each once and in order, with their
/// numbers; a day without one of them has 0 of it.
pub proof fn law_active_days_are_shown(
    days: Seq<ActivityDayCount>,
    branches: Seq<DayCount>,
    workers: Seq<DayCount>,
    b: DayCount,
    i: int,
    j: int,
)
    requires
        counted(days, branches.push(b), workers),
        0 <= i < days.len(),
        0 <= j < days.len(),
    ensures
        exists|k: int|
            0 <= k < days.len() && (#[trigger] days[k]).date@ == b.date@ && days[k].branches
                == b.count,
        i < j ==> text::precedes(days[i].date@, days[j].date@),
        count_on(workers, days[i].date@) is None ==> days[i].workers == 0,
        count_on(workers, days[i].date@) matches Some(n) ==> days[i].workers == n,
        count_on(branches.push(b), days[i].date@) is Some || count_on(workers, days[i].date@) is Some,
{
    law_days_are_counted(branches, b, b.date@);
    assert(has_day(days, b.date@));
    assert(has_day(days, days[i].date@)) by {
        assert(days[i].date@ == days[i].date@);
    }
}

/// The latest activity is that of a channel, and no channel was active after it.
pub proof fn law_latest_activity(channels: Seq<ChannelInfo>, t: Timestamp, i: int)
    requires
        0 <= i < channels.len(),
        is_latest(channels, Some(t)),
    ensures
        channels[i].last_activity_at.secs <= t.secs,
        exists|k: int| 0 <= k < channels.len() && (#[trigger] channels[k]).last_activity_at == t,
        !is_latest(channels, None),
{
}

/// The latest bulletin is the first one: its time, and its text where it has one.
pub proof fn law_latest_bulletin_is_shown(
    e: CortexEvent,
    rest: Seq<CortexEvent>,
    d: serde_json::Value,
    m: Map<Seq<char>, json::JsonTree>,
    s: Seq<char>,
)
    ensures
        bulletin_time(seq![e] + rest) == Some(e.created_at@),
        e.details == Some(d) && json::json_tree(d) == json::JsonTree::Object(m) && m.contains_key(
            "bulletin_text"@,
        ) && m["bulletin_text"@] == json::JsonTree::Text(s) ==> bulletin_text(seq![e] + rest)
            == Some(s),
        e.details is None ==> bulletin_text(seq![e] + rest) is None,
        bulletin_time(Seq::empty()) is None && bulletin_text(Seq::empty()) is None,
{
    assert((seq![e] + rest)[0] == e);
}

/// The agents of which something is stored are summarised in their order, and no other.
pub proof fn law_stored_agents_are_summarised(
    found: Seq<Option<AgentActivity>>,
    more: Option<AgentActivity>,
)
    ensures
        more is Some ==> stored(found.push(more)) == stored(found).push(found.len() as int),
        more is None ==> stored(found.push(more)) == stored(found),
        stored(Seq::empty()).len() == 0,
{
    assert(found.push(more).drop_last() == found);
}

/// A summary counts the channels, the memories and the scheduled prompts of its agent, and
/// its last day of messages is today.
pub proof fn law_summary_counts(id: Seq<char>, a: AgentActivity, now_secs: i64, r: AgentSummary)
    requires
        summarises(id, a, now_secs, r),
    ensures
        r.id@ == id,
        r.channel_count == a.channels@.len(),
        r.memory_total == a.memory_total,
        a.cron_jobs >= 0 ==> r.cron_job_count == a.cron_jobs,
        r.activity_sparkline@.len() == 14,
        r.activity_sparkline@[13] == count_days_ago(a.messages@, now_secs, 0),
        r.activity_sparkline@[0] == count_days_ago(a.messages@, now_secs, 13),
{
}

/// A scheduled prompt and a channel are shown as they are stored.
pub proof fn law_stored_values_are_shown(
    row: CronJobRow,
    job: CronJobInfo,
    agent_id: Seq<char>,
    c: ChannelInfo,
    r: ChannelResponse,
)
    requires
        shows_job(row, job),
        shows_channel(agent_id, c, r),
    ensures
        job.id@ == row.id@ && job.prompt@ == row.prompt@ && job.delivery_target@
            == row.delivery_target@,
        row.interval_secs >= 0 ==> job.interval_secs == row.interval_secs,
        job.enabled <==> row.enabled != 0,
        job.active_hours is Some <==> row.active_start_hour is Some && row.active_end_hour is Some,
        r.agent_id@ == agent_id && r.id@ == c.id@ && r.platform@ == c.platform@,
        r.is_active <==> c.is_active,
        c.display_name matches Some(n) ==> (r.display_name matches Some(x) && x@ == n@),
{
}

/// Rows that were read are shown, and those that could not be read are left out.
pub proof fn law_read_rows_are_shown(rows: AgentRows, r: AgentOverviewResponse)
    requires
        shows_agent(rows, r),
    ensures
        rows.channels matches Some(v) ==> r.channel_count == v@.len(),
        rows.channels is None ==> r.channel_count == 0,
        rows.heatmap matches Some(v) ==> r.activity_heatmap@ == v@,
        rows.memory_daily matches Some(v) ==> r.memory_daily@ == v@,
        rows.recent_events matches Some(v) ==> r.recent_cortex_events@ == v@,
        rows.cron_jobs matches Some(v) ==> r.cron_jobs@.len() == v@.len(),
        rows.memories matches Some(v) ==> r.memory_total == total(v@),
        rows.branches is None && rows.workers is None ==> r.activity_daily@.len() == 0,
{
    if rows.branches is None && rows.workers is None && r.activity_daily@.len() > 0 {
        let d = r.activity_daily@[0].date@;
        assert(has_day(r.activity_daily@, d));
    }
}

/// A page shows as many items as asked for, and a hundred at most.
pub proof fn law_page_limit(limit: i64)
    ensures
        limit <= 100 ==> page_limit(limit) == limit,
        limit > 100 ==> page_limit(limit) == 100,
{
}

} // verus!
