//! Memory maintenance: which memories lose importance with time, and which are
//! pruned.
use crate::config::F32;
use crate::memory::types::MemoryType;
use crate::message::Timestamp;
use vstd::prelude::*;

verus! {

/// Maintenance configuration.
#[derive(Clone, Copy, Debug, PartialEq, Eq, Structural)]
pub struct MaintenanceConfig {
    /// Importance below which memories are considered for pruning.
    pub prune_threshold: F32,
    /// Decay rate per day.
    pub decay_rate: F32,
    /// Minimum age in days before a memory can be pruned.
    pub min_age_days: i64,
    /// Similarity threshold for merging memories.
    pub merge_similarity_threshold: F32,
}

/// The built-in maintenance configuration: 0.1, 0.05, 30 days and 0.95.
pub open spec fn default_maintenance() -> MaintenanceConfig {
    MaintenanceConfig {
        prune_threshold: F32 { bits: 0x3dcccccd },
        decay_rate: F32 { bits: 0x3d4ccccd },
        min_age_days: 30,
        merge_similarity_threshold: F32 { bits: 0x3f733333 },
    }
}

impl Default for MaintenanceConfig {
    fn default() -> (r: Self)
        ensures
            r == default_maintenance(),
    {
        MaintenanceConfig {
            prune_threshold: F32 { bits: 0x3dcccccd },
            decay_rate: F32 { bits: 0x3d4ccccd },
            min_age_days: 30,
            merge_similarity_threshold: F32 { bits: 0x3f733333 },
        }
    }
}

/// Maintenance report.
#[derive(Clone, Copy, Debug, PartialEq, Eq, Structural)]
pub struct MaintenanceReport {
    pub decayed: usize,
    pub pruned: usize,
    pub merged: usize,
}

impl Default for MaintenanceReport {
    fn default() -> (r: Self)
        ensures
            r == (MaintenanceReport { decayed: 0, pruned: 0, merged: 0 }),
    {
        MaintenanceReport { decayed: 0, pruned: 0, merged: 0 }
    }
}

/// The types whose memories lose importance with time: all but identities.
pub open spec fn decaying() -> Seq<MemoryType> {
    seq![
        MemoryType::Fact,
        MemoryType::Preference,
        MemoryType::Decision,
        MemoryType::Event,
        MemoryType::Observation,
        MemoryType::Goal,
        MemoryType::Todo,
    ]
}

/// The types whose memories lose importance with time.
pub fn decaying_types() -> (r: Vec<MemoryType>)
    ensures
        r@ == decaying(),
{
    let mut v: Vec<MemoryType> = Vec::new();
    v.push(MemoryType::Fact);
    v.push(MemoryType::Preference);
    v.push(MemoryType::Decision);
    v.push(MemoryType::Event);
    v.push(MemoryType::Observation);
    v.push(MemoryType::Goal);
    v.push(MemoryType::Todo);
    assert(v@ =~= decaying());
    v
}

/// Identity memories never lose importance, and all others do.
pub proof fn law_identity_is_kept(t: MemoryType)
    ensures
        decaying().contains(t) == (t != MemoryType::Identity),
{
    let d = decaying();
    assert(d[0] == MemoryType::Fact && d[1] == MemoryType::Preference && d[2]
        == MemoryType::Decision && d[3] == MemoryType::Event && d[4] == MemoryType::Observation
        && d[5] == MemoryType::Goal && d[6] == MemoryType::Todo);
}

/// The number of seconds between two points in time, without the fraction.
pub open spec fn seconds_between(now: Timestamp, then: Timestamp) -> int {
    let whole = now.secs - then.secs;
    if whole > 0 && now.nanos < then.nanos {
        whole - 1
    } else if whole < 0 && now.nanos > then.nanos {
        whole + 1
    } else {
        whole
    }
}

/// The number of days between two points in time, without the fraction.
pub open spec fn days_between(now: Timestamp, then: Timestamp) -> int {
    let s = seconds_between(now, then);
    if s >= 0 {
        s / 86400
    } else {
        -((-s) / 86400)
    }
}

/// The number of full days that have passed since a point in time. It is negative
/// where the point lies ahead.
pub fn days_since(now: &Timestamp, then: &Timestamp) -> (r: i64)
    requires
        i64::MIN < now.secs - then.secs <= i64::MAX,
    ensures
        r == days_between(*now, *then),
{
    let whole: i64 = now.secs - then.secs;
    let s: i64 = if whole > 0 && now.nanos < then.nanos {
        whole - 1
    } else if whole < 0 && now.nanos > then.nanos {
        whole + 1
    } else {
        whole
    };
    if s >= 0 {
        s / 86400
    } else {
        -((-s) / 86400)
    }
}

/// By how many tenths the last access weighs the importance of a memory: recent
/// access boosts it, a long time without access reduces it.
pub fn access_boost_tenths(days_since_access: i64) -> (r: u32)
    ensures
        r == (if days_since_access < 7 {
            11u32
        } else if days_since_access > 30 {
            9
        } else {
            10
        }),
{
    if days_since_access < 7 {
        11
    } else if days_since_access > 30 {
        9
    } else {
        10
    }
}

/// The point in time before which a memory must have been made to be pruned.
pub fn prune_cutoff(now: &Timestamp, config: &MaintenanceConfig) -> (r: Timestamp)
    requires
        i64::MIN <= now.secs - config.min_age_days * 86400 <= i64::MAX,
        i64::MIN <= config.min_age_days * 86400 <= i64::MAX,
    ensures
        r.secs == now.secs - config.min_age_days * 86400,
        r.nanos == now.nanos,
{
    Timestamp { secs: now.secs - config.min_age_days * 86400, nanos: now.nanos }
}

/// The days between two points in time are the full ones: so many days lie between them,
/// and not one more. Looked at from the other end they are the same, counted backwards.
pub proof fn law_days_are_full(now: Timestamp, then: Timestamp)
    requires
        now.nanos < 1_000_000_000,
        then.nanos < 1_000_000_000,
    ensures
        ({
            let span = (now.secs - then.secs) * 1_000_000_000 + now.nanos - then.nanos;
            let d = days_between(now, then);
            span >= 0 ==> d * 86_400_000_000_000 <= span < (d + 1) * 86_400_000_000_000
        }),
        days_between(then, now) == -days_between(now, then),
{
    let s = seconds_between(now, then);
    assert(seconds_between(then, now) == -s);
    let span = (now.secs - then.secs) * 1_000_000_000 + now.nanos - then.nanos;
    if span >= 0 {
        assert(s >= 0);
        assert(s * 1_000_000_000 <= span < (s + 1) * 1_000_000_000);
        let d = s / 86400;
        assert(d * 86400 <= s < (d + 1) * 86400);
    }
}

/// Memories of a tenth of the importance or less are pruned after thirty days, and lose a
/// twentieth of it by day.
pub proof fn law_maintenance_by_default()
    ensures
        default_maintenance().min_age_days == 30,
        default_maintenance().prune_threshold.bits == 0x3dcccccd,
        default_maintenance().decay_rate.bits == 0x3d4ccccd,
        default_maintenance().merge_similarity_threshold.bits == 0x3f733333,
{
}

} // verus!
