//! Immutable parameters of one load-generation run.

use vstd::prelude::*;

verus! {

/// Parameters for one run: the fixed gap between successive dispatches
/// (the reciprocal of the target request rate) and the total number of
/// requests to issue.
#[derive(Clone, Copy, Debug)]
pub struct RunConfig {
    /// Inter-arrival delay between successive dispatches, in nanoseconds.
    pub interval_nanos: u64,
    /// Total number of requests to issue over the run.
    pub total: usize,
}

impl RunConfig {
    /// A configuration is well formed when the dispatch cadence is a
    /// positive delay, i.e. the target rate was a positive finite number.
    pub open spec fn wf(self) -> bool {
        self.interval_nanos > 0
    }

    /// Builds a run configuration. A zero inter-arrival delay has no
    /// meaning as a cadence and is rejected as a configuration error.
    pub fn new(interval_nanos: u64, total: usize) -> (r: Option<RunConfig>)
        ensures
            r is Some <==> interval_nanos > 0,
            r matches Some(c) ==> c == (RunConfig { interval_nanos, total }) && c.wf(),
    {
        if interval_nanos > 0 {
            Some(RunConfig { interval_nanos, total })
        } else {
            None
        }
    }
}

} // verus!
