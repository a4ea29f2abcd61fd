//! The hook of the system-level observer.
use vstd::prelude::*;

verus! {

/// Hook for cortex observation.
#[derive(Clone, Copy, Debug, PartialEq, Eq, Structural)]
pub struct CortexHook;

impl CortexHook {
    /// Create a new cortex hook.
    pub fn new() -> (r: Self)
        ensures
            r == CortexHook,
    {
        CortexHook
    }
}

impl Default for CortexHook {
    fn default() -> (r: Self)
        ensures
            r == CortexHook,
    {
        CortexHook::new()
    }
}

} // verus!
