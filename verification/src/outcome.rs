//! The result of one request attempt.

use vstd::prelude::*;

verus! {

/// Outcome of a single request attempt. Any completed exchange counts as
/// a success, whatever the status code; only a failure to complete the
/// exchange (connection reset, timeout, protocol error) counts as a
/// failure. The latency is meaningful only for a success and is zero
/// otherwise.
#[derive(Clone, Copy, Debug, PartialEq, Eq, Structural)]
pub struct ResponseOutcome {
    /// Whether the exchange completed.
    pub succeeded: bool,
    /// Elapsed time from send to completion, in nanoseconds.
    pub latency_nanos: u64,
}

impl ResponseOutcome {
    /// Records a completed exchange and its elapsed time.
    pub fn success(latency_nanos: u64) -> (r: ResponseOutcome)
        ensures
            r.succeeded,
            r.latency_nanos == latency_nanos,
    {
        ResponseOutcome { succeeded: true, latency_nanos }
    }

    /// Records an exchange that did not complete.
    pub fn failure() -> (r: ResponseOutcome)
        ensures
            !r.succeeded,
            r.latency_nanos == 0,
    {
        ResponseOutcome { succeeded: false, latency_nanos: 0 }
    }
}

} // verus!
