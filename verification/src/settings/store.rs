//! Key-value settings.
use crate::text::{cat2, str_eq};
use vstd::prelude::*;

verus! {

/// The key of the worker log mode setting.
pub const WORKER_LOG_MODE_KEY: &'static str = "worker_log_mode";

/// How worker execution logs are stored.
#[derive(Clone, Copy, Debug, PartialEq, Eq, Structural)]
pub enum WorkerLogMode {
    /// Only log failed worker runs.
    ErrorsOnly,
    /// Log all runs with separate directories for success and failure.
    AllSeparate,
    /// Log all runs to the same directory.
    AllCombined,
}

impl Default for WorkerLogMode {
    fn default() -> (r: Self)
        ensures
            r == WorkerLogMode::ErrorsOnly,
    {
        WorkerLogMode::ErrorsOnly
    }
}

impl WorkerLogMode {
    /// The name of a mode.
    pub open spec fn name(self) -> Seq<char> {
        match self {
            WorkerLogMode::ErrorsOnly => "errors_only"@,
            WorkerLogMode::AllSeparate => "all_separate"@,
            WorkerLogMode::AllCombined => "all_combined"@,
        }
    }

    /// The mode that a text names.
    pub open spec fn named(s: Seq<char>) -> Option<WorkerLogMode> {
        if s == "errors_only"@ {
            Some(WorkerLogMode::ErrorsOnly)
        } else if s == "all_separate"@ {
            Some(WorkerLogMode::AllSeparate)
        } else if s == "all_combined"@ {
            Some(WorkerLogMode::AllCombined)
        } else {
            None
        }
    }

    /// Writes the name of a mode.
    pub fn to_string(&self) -> (r: String)
        ensures
            r@ == self.name(),
    {
        match self {
            WorkerLogMode::ErrorsOnly => "errors_only".to_owned(),
            WorkerLogMode::AllSeparate => "all_separate".to_owned(),
            WorkerLogMode::AllCombined => "all_combined".to_owned(),
        }
    }

    /// Reads the name of a mode.
    pub fn from_str(s: &str) -> (r: Result<WorkerLogMode, String>)
        ensures
            match r {
                Ok(m) => WorkerLogMode::named(s@) == Some(m),
                Err(e) => WorkerLogMode::named(s@) is None && e@ == "unknown worker log mode: "@
                    + s@,
            },
    {
        if str_eq(s, "errors_only") {
            Ok(WorkerLogMode::ErrorsOnly)
        } else if str_eq(s, "all_separate") {
            Ok(WorkerLogMode::AllSeparate)
        } else if str_eq(s, "all_combined") {
            Ok(WorkerLogMode::AllCombined)
        } else {
            Err(cat2("unknown worker log mode: ", s))
        }
    }
}

/// A mode is read back from its own name.
pub proof fn law_log_mode_round_trip(m: WorkerLogMode)
    ensures
        WorkerLogMode::named(m.name()) == Some(m),
{
    reveal_strlit("errors_only");
    reveal_strlit("all_separate");
    reveal_strlit("all_combined");
    assert("errors_only"@[0] == 'e');
    assert("all_separate"@[0] == 'a');
    assert("all_combined"@[0] == 'a');
    assert("all_separate"@[4] == 's');
    assert("all_combined"@[4] == 'c');
}

/// The mode that a stored value stands for: the default where none is stored or
/// where the value names no mode.
pub fn worker_log_mode(stored: Option<&str>) -> (r: WorkerLogMode)
    ensures
        r == (match stored {
            Some(s) => match WorkerLogMode::named(s@) {
                Some(m) => m,
                None => WorkerLogMode::ErrorsOnly,
            },
            None => WorkerLogMode::ErrorsOnly,
        }),
{
    match stored {
        Some(s) => match WorkerLogMode::from_str(s) {
            Ok(m) => m,
            Err(_) => WorkerLogMode::default(),
        },
        None => WorkerLogMode::default(),
    }
}

/// The value to store when a settings store is opened: the default mode, where
/// none is stored yet.
pub fn initial_worker_log_mode(stored: Option<&str>) -> (r: Option<String>)
    ensures
        match r {
            Some(s) => stored is None && s@ == WorkerLogMode::ErrorsOnly.name(),
            None => stored is Some,
        },
{
    match stored {
        Some(_) => None,
        None => Some(WorkerLogMode::default().to_string()),
    }
}

/// A text names a mode if and only if it is the name of one.
pub proof fn law_only_names_are_modes(s: Seq<char>)
    ensures
        WorkerLogMode::named(s) is Some <==> s == "errors_only"@ || s == "all_separate"@ || s
            == "all_combined"@,
        WorkerLogMode::named(s) matches Some(m) ==> m.name() == s,
{
}

} // verus!
