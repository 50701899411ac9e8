//! A model of the shared count of outstanding requests.
//!
//! Each request task increments the counter immediately before its
//! request goes on the wire and decrements it immediately after the
//! exchange completes, so a periodic sampler sees how many requests are
//! truly in flight. The counter tracks how many starts and finishes it
//! has seen; the outstanding count is their difference, so it can never
//! go negative: a finish is only accepted while some request is
//! outstanding.

use vstd::prelude::*;

verus! {

/// Count of requests that have been sent and not yet completed.
pub struct OutstandingCounter {
    started: u64,
    finished: u64,
}

impl OutstandingCounter {
    /// How many requests have ever been started.
    pub closed spec fn started_count(self) -> nat {
        self.started as nat
    }

    /// How many requests have ever finished.
    pub closed spec fn finished_count(self) -> nat {
        self.finished as nat
    }

    /// Every finish matches an earlier start.
    pub open spec fn wf(self) -> bool {
        self.finished_count() <= self.started_count()
    }

    /// How many requests are in flight: started and not yet finished.
    pub open spec fn outstanding(self) -> nat
        recommends
            self.wf(),
    {
        (self.started_count() - self.finished_count()) as nat
    }

    /// A fresh counter: nothing started, nothing outstanding.
    pub fn new() -> (c: OutstandingCounter)
        ensures
            c.wf(),
            c.started_count() == 0,
            c.finished_count() == 0,
            c.outstanding() == 0,
    {
        OutstandingCounter { started: 0, finished: 0 }
    }

    /// A request is about to go on the wire: one more outstanding.
    pub fn record_start(&mut self)
        requires
            old(self).wf(),
            old(self).started_count() < u64::MAX,
        ensures
            final(self).wf(),
            final(self).started_count() == old(self).started_count() + 1,
            final(self).finished_count() == old(self).finished_count(),
            final(self).outstanding() == old(self).outstanding() + 1,
    {
        self.started = self.started + 1;
    }

    /// An outstanding request has completed: one fewer outstanding.
    pub fn record_finish(&mut self)
        requires
            old(self).wf(),
            old(self).outstanding() > 0,
        ensures
            final(self).wf(),
            final(self).started_count() == old(self).started_count(),
            final(self).finished_count() == old(self).finished_count() + 1,
            final(self).outstanding() == old(self).outstanding() - 1,
    {
        self.finished = self.finished + 1;
    }

    /// How many requests have ever been started, as the caller can
    /// read it.
    pub fn starts(&self) -> (n: u64)
        ensures
            n == self.started_count(),
    {
        self.started
    }

    /// The value a sampler reads: the current outstanding count.
    pub fn current(&self) -> (n: u64)
        requires
            self.wf(),
        ensures
            n == self.outstanding(),
    {
        self.started - self.finished
    }
}

/// The concurrency invariant: the outstanding count equals the number of
/// request tasks that have incremented the counter and not yet
/// decremented it, and it is never negative.
pub proof fn lemma_outstanding_balance(c: OutstandingCounter)
    requires
        c.wf(),
    ensures
        c.outstanding() + c.finished_count() == c.started_count(),
        c.outstanding() >= 0,
{
}

} // verus!
