//! The rate controller: an open-loop dispatch plan.
//!
//! Requests are issued on a fixed cadence, one every inter-arrival
//! delay, without waiting for earlier requests to complete. The
//! dispatcher here decides, tick by tick, whether one more request task
//! is to be started and how long to wait before the next decision; the
//! caller performs the actual spawning and sleeping and, once the
//! dispatcher is exhausted, waits for every spawned task to finish.

use vstd::prelude::*;

use crate::config::RunConfig;

verus! {

/// One tick's instruction to the dispatch loop: start the request task
/// with this index, then wait `sleep_nanos` before the next tick.
#[derive(Clone, Copy, Debug, PartialEq, Eq, Structural)]
pub struct SpawnDirective {
    /// Zero-based index of the request to start.
    pub index: usize,
    /// How long to wait after spawning, in nanoseconds.
    pub sleep_nanos: u64,
}

/// The planned moment of dispatch `i`, in nanoseconds after the first
/// dispatch: the cadence places dispatches `interval_nanos` apart.
pub open spec fn dispatch_offset_nanos(config: RunConfig, i: int) -> int {
    i * config.interval_nanos
}

/// The rate controller's state: how many request tasks have been issued
/// so far out of the configured total.
pub struct Dispatcher {
    config: RunConfig,
    issued: usize,
}

impl Dispatcher {
    /// The configuration this dispatcher was built with.
    pub closed spec fn config_spec(self) -> RunConfig {
        self.config
    }

    /// How many request tasks have been issued so far.
    pub closed spec fn issued_count(self) -> nat {
        self.issued as nat
    }

    /// Never more tasks issued than configured, on a valid cadence.
    pub open spec fn wf(self) -> bool {
        &&& self.config_spec().wf()
        &&& self.issued_count() <= self.config_spec().total
    }

    /// A dispatcher that has issued nothing yet.
    pub fn new(config: RunConfig) -> (d: Dispatcher)
        requires
            config.wf(),
        ensures
            d.wf(),
            d.config_spec() == config,
            d.issued_count() == 0,
    {
        Dispatcher { config, issued: 0 }
    }

    /// One tick of the dispatch loop. Hands out a spawn directive
    /// exactly while fewer than `total` tasks have been issued, so a
    /// loop driven to `None` issues exactly `total` tasks; each
    /// directive carries the fixed inter-arrival delay, never adjusted
    /// to request completion times.
    pub fn next_spawn(&mut self) -> (r: Option<SpawnDirective>)
        requires
            old(self).wf(),
        ensures
            final(self).wf(),
            final(self).config_spec() == old(self).config_spec(),
            old(self).issued_count() < old(self).config_spec().total ==> {
                &&& r matches Some(d) && d == (SpawnDirective {
                    index: old(self).issued_count() as usize,
                    sleep_nanos: old(self).config_spec().interval_nanos,
                })
                &&& final(self).issued_count() == old(self).issued_count() + 1
            },
            old(self).issued_count() >= old(self).config_spec().total ==> {
                &&& r is None
                &&& *final(self) == *old(self)
            },
    {
        if self.issued < self.config.total {
            let directive = SpawnDirective {
                index: self.issued,
                sleep_nanos: self.config.interval_nanos,
            };
            self.issued = self.issued + 1;
            Some(directive)
        } else {
            None
        }
    }

    /// How many tasks have been issued so far.
    pub fn issued(&self) -> (n: usize)
        ensures
            n == self.issued_count(),
    {
        self.issued
    }
}

/// The full dispatch plan of a run: one entry per request, giving the
/// planned dispatch moment in nanoseconds after the first dispatch.
/// Exactly `total` dispatches are planned, `interval_nanos` apart.
pub fn dispatch_offsets(config: &RunConfig) -> (offsets: Vec<u128>)
    requires
        config.wf(),
    ensures
        offsets@.len() == config.total,
        forall|i: int|
            0 <= i < config.total ==> offsets@[i] as int == dispatch_offset_nanos(*config, i),
{
    let mut offsets: Vec<u128> = Vec::new();
    let mut i: usize = 0;
    while i < config.total
        invariant
            i <= config.total,
            offsets@.len() == i,
            forall|k: int|
                0 <= k < i ==> offsets@[k] as int == dispatch_offset_nanos(*config, k),
        decreases config.total - i,
    {
        proof {
            lemma_product_fits_u128(i as int, config.interval_nanos as int);
        }
        offsets.push((i as u128) * (config.interval_nanos as u128));
        i = i + 1;
    }
    offsets
}

/// The product of two machine-word-sized factors fits in 128 bits.
proof fn lemma_product_fits_u128(a: int, b: int)
    by (nonlinear_arith)
    requires
        0 <= a < 0x1_0000_0000_0000_0000,
        0 <= b < 0x1_0000_0000_0000_0000,
    ensures
        0 <= a * b <= 0xffff_ffff_ffff_ffff_ffff_ffff_ffff_ffff,
{
}

/// Dispatch cadence: the wall-clock span from the first planned
/// dispatch to the last is exactly `total - 1` inter-arrival gaps,
/// independent of how long any individual request takes.
pub proof fn lemma_dispatch_span(config: RunConfig)
    requires
        config.wf(),
        config.total >= 1,
    ensures
        dispatch_offset_nanos(config, config.total - 1) - dispatch_offset_nanos(config, 0)
            == (config.total - 1) * config.interval_nanos,
{
}

} // verus!
