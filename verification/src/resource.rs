//! The mutable resource bag carried by a request.
use vstd::prelude::*;

verus! {

/// Shared per-request resources: the deadlines (Unix seconds) of the
/// active timers.  Timers run as independent suspended tasks, so nothing
/// here needs synchronization; the list exists for observability alone.
#[derive(Debug, Clone, PartialEq, PartialOrd)]
pub struct Resources {
    /// Deadlines of the timers currently pending, Unix seconds.
    pub active_timers: Vec<i64>,
}

impl Default for Resources {
    /// An empty bag: no timer pending.
    fn default() -> (r: Self)
        ensures
            r.active_timers@ == Seq::<i64>::empty(),
    {
        Resources { active_timers: Vec::new() }
    }
}

} // verus!
