//! Collection of per-request outcomes and computation of the final run
//! statistics: success rate, median response latency, and average
//! in-flight count.
//!
//! Statistics are computed once, over a frozen log taken after every
//! request task has finished, and are kept exact: the success rate is
//! the pair of a success count and a request total, the average
//! in-flight count the pair of a sample sum and a sample count, and the
//! median is a selected element of the recorded latencies. Rounding for
//! display is left to the caller.

use vstd::arithmetic::div_mod::{
    lemma_div_is_ordered, lemma_div_multiples_vanish, lemma_hoist_over_denominator,
};
use vstd::multiset::Multiset;
use vstd::prelude::*;
use vstd::seq_lib::to_multiset_insert;

use crate::outcome::ResponseOutcome;

verus! {

/// The latencies of the successful outcomes of `s`, in log order.
pub open spec fn success_latencies(s: Seq<ResponseOutcome>) -> Seq<u64>
    decreases s.len(),
{
    if s.len() == 0 {
        Seq::empty()
    } else if s.last().succeeded {
        success_latencies(s.drop_last()).push(s.last().latency_nanos)
    } else {
        success_latencies(s.drop_last())
    }
}

/// How many outcomes of `s` succeeded.
pub open spec fn success_count(s: Seq<ResponseOutcome>) -> nat {
    success_latencies(s).len()
}

/// How many outcomes of `s` failed.
pub open spec fn failure_count(s: Seq<ResponseOutcome>) -> nat
    decreases s.len(),
{
    if s.len() == 0 {
        0
    } else if s.last().succeeded {
        failure_count(s.drop_last())
    } else {
        failure_count(s.drop_last()) + 1
    }
}

/// Every outcome is either a success or a failure, so the two counts
/// partition the log: over a completed run of `n` requests they sum to
/// `n`.
pub proof fn lemma_outcome_counts_partition(s: Seq<ResponseOutcome>)
    ensures
        success_count(s) + failure_count(s) == s.len(),
    decreases s.len(),
{
    if s.len() > 0 {
        lemma_outcome_counts_partition(s.drop_last());
    }
}

/// Non-decreasing order.
pub open spec fn is_ascending(s: Seq<u64>) -> bool {
    forall|i: int, j: int| 0 <= i <= j < s.len() ==> s[i] <= s[j]
}

/// `x` placed immediately before the first element that is at least
/// `x`.
pub open spec fn ordered_insert(s: Seq<u64>, x: u64) -> Seq<u64>
    decreases s.len(),
{
    if s.len() == 0 {
        seq![x]
    } else if x <= s.first() {
        seq![x] + s
    } else {
        seq![s.first()] + ordered_insert(s.drop_first(), x)
    }
}

/// The ascending rearrangement of `s`, built by insertion.
pub open spec fn ascending_of(s: Seq<u64>) -> Seq<u64>
    decreases s.len(),
{
    if s.len() == 0 {
        Seq::empty()
    } else {
        ordered_insert(ascending_of(s.drop_last()), s.last())
    }
}

/// The median latency of a set of successful outcomes: sort ascending
/// and take the element at index `n / 2` (the upper median for
/// even-sized sets); the zero-duration sentinel when no successful
/// outcome exists.
pub open spec fn median_latency_nanos(lats: Seq<u64>) -> u64 {
    if lats.len() == 0 {
        0
    } else {
        ascending_of(lats)[lats.len() as int / 2]
    }
}

/// Sum of a log of in-flight samples.
pub open spec fn sample_sum(s: Seq<usize>) -> int
    decreases s.len(),
{
    if s.len() == 0 {
        0
    } else {
        sample_sum(s.drop_last()) + s.last()
    }
}

/// The position where `ordered_insert` places a new element: the index
/// of the first element that is at least `x`, or the length if there is
/// none.
proof fn boundary_index(s: Seq<u64>, x: u64) -> (j: int)
    ensures
        0 <= j <= s.len(),
        forall|k: int| 0 <= k < j ==> s[k] < x,
        j < s.len() ==> x <= s[j],
    decreases s.len(),
{
    if s.len() == 0 {
        0
    } else if x <= s.first() {
        0
    } else {
        let j0 = boundary_index(s.drop_first(), x);
        assert forall|k: int| 0 <= k < j0 + 1 implies s[k] < x by {
            if k > 0 {
                assert(s[k] == s.drop_first()[k - 1]);
            }
        }
        j0 + 1
    }
}

/// Inserting at the boundary position is what `ordered_insert` does.
proof fn lemma_ordered_insert_at(s: Seq<u64>, x: u64, j: int)
    requires
        0 <= j <= s.len(),
        forall|k: int| 0 <= k < j ==> s[k] < x,
        j < s.len() ==> x <= s[j],
    ensures
        s.insert(j, x) == ordered_insert(s, x),
    decreases s.len(),
{
    if s.len() == 0 {
        assert(s.insert(0, x) =~= seq![x]);
    } else if j == 0 {
        assert(s.insert(0, x) =~= seq![x] + s);
    } else {
        let t = s.drop_first();
        assert forall|k: int| 0 <= k < j - 1 implies t[k] < x by {
            assert(t[k] == s[k + 1]);
        }
        lemma_ordered_insert_at(t, x, j - 1);
        assert(s.insert(j, x) =~= seq![s.first()] + t.insert(j - 1, x));
    }
}

/// `ordered_insert` adds exactly `x` to the contents of `s`.
pub proof fn lemma_ordered_insert_multiset(s: Seq<u64>, x: u64)
    ensures
        ordered_insert(s, x).to_multiset() == s.to_multiset().insert(x),
        ordered_insert(s, x).len() == s.len() + 1,
{
    let j = boundary_index(s, x);
    lemma_ordered_insert_at(s, x, j);
    to_multiset_insert(s, j, x);
}

/// `ordered_insert` keeps a sequence in ascending order.
pub proof fn lemma_ordered_insert_ascending(s: Seq<u64>, x: u64)
    requires
        is_ascending(s),
    ensures
        is_ascending(ordered_insert(s, x)),
{
    let j = boundary_index(s, x);
    lemma_ordered_insert_at(s, x, j);
    let r = s.insert(j, x);
    s.insert_ensures(j, x);
    assert forall|p: int, q: int| 0 <= p <= q < r.len() implies r[p] <= r[q] by {
        assert(forall|k: int| 0 <= k < j ==> r[k] == s[k]);
        assert(forall|k: int| j <= k < s.len() ==> r[k + 1] == s[k]);
        assert(r[j] == x);
    }
}

/// The ascending rearrangement really is ascending and really is a
/// rearrangement: it holds exactly the elements of `s`, in
/// non-decreasing order. This is what makes the median a selection from
/// the recorded latencies.
pub proof fn lemma_ascending_of_sorts(s: Seq<u64>)
    ensures
        is_ascending(ascending_of(s)),
        ascending_of(s).to_multiset() == s.to_multiset(),
        ascending_of(s).len() == s.len(),
    decreases s.len(),
{
    broadcast use vstd::seq_lib::group_to_multiset_ensures;

    if s.len() == 0 {
        assert(s.to_multiset() =~= Multiset::<u64>::empty());
    } else {
        let prefix = s.drop_last();
        lemma_ascending_of_sorts(prefix);
        lemma_ordered_insert_ascending(ascending_of(prefix), s.last());
        lemma_ordered_insert_multiset(ascending_of(prefix), s.last());
        assert(s =~= prefix.push(s.last()));
        assert(s.to_multiset() == prefix.to_multiset().insert(s.last()));
    }
}

/// Final statistics of one run. All fields are exact; the rates are
/// kept as numerator and denominator so that no precision is lost
/// before display.
#[derive(Clone, Copy, Debug, PartialEq, Eq, Structural)]
pub struct RunStatistics {
    /// How many requests completed their exchange.
    pub succeeded: usize,
    /// How many requests the run was configured to issue.
    pub total_requested: usize,
    /// The median latency of the successful requests, in nanoseconds;
    /// zero when none succeeded.
    pub median_latency_nanos: u64,
    /// Sum of all in-flight samples taken over the run.
    pub sample_sum: u128,
    /// How many in-flight samples were taken.
    pub sample_count: usize,
}

impl RunStatistics {
    /// Statistics of a completed run: no more successes than requests,
    /// and a sample sum no larger than every sample being as large as a
    /// machine word allows.
    pub open spec fn wf(self) -> bool {
        &&& self.succeeded <= self.total_requested
        &&& self.sample_sum <= self.sample_count as int * (usize::MAX as int)
    }

    /// The success rate in tenths of a percent, rounded toward zero;
    /// zero when nothing was requested (the division the rate would
    /// otherwise take is left undefined by the naive formula, so the
    /// empty run is pinned to zero by policy).
    pub open spec fn success_rate_tenths_spec(self) -> int {
        if self.total_requested == 0 {
            0
        } else {
            1000 * self.succeeded / (self.total_requested as int)
        }
    }

    /// The average in-flight count in hundredths, rounded toward zero;
    /// zero when no samples were taken.
    pub open spec fn average_in_flight_hundredths_spec(self) -> int {
        if self.sample_count == 0 {
            0
        } else {
            100 * self.sample_sum / (self.sample_count as int)
        }
    }

    /// The success rate, as tenths of a percent. A rate over a
    /// completed run always lies in [0, 100] percent, and recomputing
    /// it from the same frozen statistics always yields the same value.
    pub fn success_rate_tenths(&self) -> (r: u64)
        requires
            self.wf(),
        ensures
            r == self.success_rate_tenths_spec(),
            r <= 1000,
    {
        if self.total_requested == 0 {
            0
        } else {
            let num: u128 = 1000u128 * (self.succeeded as u128);
            let den: u128 = self.total_requested as u128;
            let rate: u128 = num / den;
            proof {
                lemma_div_is_ordered(
                    1000 * self.succeeded,
                    1000 * self.total_requested,
                    self.total_requested as int,
                );
                lemma_div_multiples_vanish(1000, self.total_requested as int);
                assert(1000 * (self.total_requested as int) == (self.total_requested as int) * 1000);
            }
            rate as u64
        }
    }

    /// The average in-flight count, as hundredths. Computed without
    /// widening past 128 bits by splitting the sample sum into quotient
    /// and remainder of the sample count.
    pub fn average_in_flight_hundredths(&self) -> (r: u128)
        requires
            self.wf(),
        ensures
            r == self.average_in_flight_hundredths_spec(),
    {
        if self.sample_count == 0 {
            0
        } else {
            let den: u128 = self.sample_count as u128;
            let quot: u128 = self.sample_sum / den;
            let rem: u128 = self.sample_sum % den;
            proof {
                lemma_average_split(self.sample_sum as int, den as int, usize::MAX as int);
            }
            100 * quot + (100 * rem) / den
        }
    }
}

/// Over the statistics of a completed run the success rate always lies
/// in [0, 100] percent — here in [0, 1000] tenths of a percent — for
/// any request total, the empty run included; and it is a pure
/// function of the frozen statistics, so recomputing it from the same
/// log always yields the same value.
pub proof fn lemma_success_rate_in_range(stats: RunStatistics)
    requires
        stats.wf(),
    ensures
        0 <= stats.success_rate_tenths_spec() <= 1000,
{
    if stats.total_requested > 0 {
        let total = stats.total_requested as int;
        lemma_div_is_ordered(1000 * stats.succeeded, 1000 * total, total);
        lemma_div_multiples_vanish(1000, total);
        assert(1000 * total == total * 1000);
        vstd::arithmetic::div_mod::lemma_div_pos_is_pos(1000 * stats.succeeded, total);
    }
}

/// Splitting a sum into quotient and remainder of the count lets the
/// scaled average be computed narrowly: `100 * s / d` equals
/// `100 * (s / d) + 100 * (s % d) / d`, and the quotient is bounded by
/// the largest sample value.
proof fn lemma_average_split(s: int, d: int, bound: int)
    requires
        0 < d,
        0 <= s <= d * bound,
        0 <= bound,
    ensures
        s / d <= bound,
        0 <= s % d < d,
        100 * s / d == 100 * (s / d) + (100 * (s % d)) / d,
        0 <= (100 * (s % d)) / d < 100,
{
    let q = s / d;
    let r = s % d;
    vstd::arithmetic::div_mod::lemma_fundamental_div_mod(s, d);
    assert(s == d * q + r);
    lemma_div_is_ordered(s, d * bound, d);
    lemma_div_multiples_vanish(bound, d);
    lemma_hoist_over_denominator(100 * r, 100 * q, d as nat);
    assert(100 * r + (100 * q) * d == 100 * s) by (nonlinear_arith)
        requires
            s == d * q + r,
    ;
    assert((100 * (s % d)) / d < 100) by {
        assert(100 * r < d * 100) by (nonlinear_arith)
            requires
                0 <= r < d,
        ;
        vstd::arithmetic::div_mod::lemma_multiply_divide_lt(100 * r, d, 100);
    }
    assert(0 <= (100 * (s % d)) / d) by {
        vstd::arithmetic::div_mod::lemma_div_pos_is_pos(100 * r, d);
    }
}

/// Thread-safe in use by being owned behind the caller's lock: the
/// append-only log of per-request outcomes.
pub struct MetricsAggregator {
    outcomes: Vec<ResponseOutcome>,
}

impl View for MetricsAggregator {
    type V = Seq<ResponseOutcome>;

    closed spec fn view(&self) -> Seq<ResponseOutcome> {
        self.outcomes@
    }
}

impl MetricsAggregator {
    /// An empty outcome log.
    pub fn new() -> (m: MetricsAggregator)
        ensures
            m@ == Seq::<ResponseOutcome>::empty(),
            m@.len() == 0,
    {
        MetricsAggregator { outcomes: Vec::new() }
    }

    /// Appends the outcome of one completed request attempt.
    pub fn record_outcome(&mut self, outcome: ResponseOutcome)
        ensures
            final(self)@ == old(self)@.push(outcome),
            final(self)@.len() == old(self)@.len() + 1,
    {
        self.outcomes.push(outcome);
    }

    /// How many outcomes have been recorded so far.
    pub fn outcome_count(&self) -> (n: usize)
        ensures
            n == self@.len(),
    {
        self.outcomes.len()
    }

    /// Computes the final statistics from the frozen logs: the log of
    /// outcomes held here — complete, one entry per requested request —
    /// and the log of in-flight samples. With no successful outcome the
    /// median is the zero-duration sentinel, not an error.
    pub fn finalize(&self, total_requested: usize, samples: &Vec<usize>) -> (r: RunStatistics)
        requires
            self@.len() == total_requested,
        ensures
            r.total_requested == total_requested,
            r.succeeded == success_count(self@),
            r.median_latency_nanos == median_latency_nanos(success_latencies(self@)),
            success_count(self@) == 0 ==> r.median_latency_nanos == 0,
            r.sample_sum == sample_sum(samples@),
            r.sample_count == samples@.len(),
            r.wf(),
    {
        let lats = collect_success_latencies(&self.outcomes);
        let succeeded = lats.len();
        proof {
            lemma_outcome_counts_partition(self@);
            lemma_ascending_of_sorts(lats@);
        }
        let ascending = sort_ascending(lats);
        let median_latency_nanos: u64 = if ascending.len() == 0 {
            0
        } else {
            ascending[ascending.len() / 2]
        };
        let (sum, count) = sum_samples(samples);
        RunStatistics {
            succeeded,
            total_requested,
            median_latency_nanos,
            sample_sum: sum,
            sample_count: count,
        }
    }
}

/// The latencies of the successful outcomes, in log order.
fn collect_success_latencies(outcomes: &Vec<ResponseOutcome>) -> (lats: Vec<u64>)
    ensures
        lats@ == success_latencies(outcomes@),
{
    let mut lats: Vec<u64> = Vec::new();
    let mut i: usize = 0;
    while i < outcomes.len()
        invariant
            i <= outcomes@.len(),
            lats@ == success_latencies(outcomes@.take(i as int)),
        decreases outcomes@.len() - i,
    {
        let outcome = outcomes[i];
        proof {
            assert(outcomes@.take(i + 1).drop_last() =~= outcomes@.take(i as int));
            assert(outcomes@.take(i + 1).last() == outcomes@[i as int]);
        }
        if outcome.succeeded {
            lats.push(outcome.latency_nanos);
        }
        i = i + 1;
    }
    proof {
        assert(outcomes@.take(outcomes@.len() as int) =~= outcomes@);
    }
    lats
}

/// Inserts `x` immediately before the first element that is at least
/// `x`.
fn insert_ordered(lats: &mut Vec<u64>, x: u64)
    ensures
        final(lats)@ == ordered_insert(old(lats)@, x),
{
    let mut j: usize = 0;
    while j < lats.len() && lats[j] < x
        invariant
            lats@ == old(lats)@,
            j <= lats@.len(),
            forall|k: int| 0 <= k < j ==> lats@[k] < x,
        decreases lats@.len() - j,
    {
        j = j + 1;
    }
    proof {
        lemma_ordered_insert_at(lats@, x, j as int);
    }
    lats.insert(j, x);
}

/// Sorts the latencies ascending by repeated ordered insertion.
fn sort_ascending(lats: Vec<u64>) -> (r: Vec<u64>)
    ensures
        r@ == ascending_of(lats@),
{
    let mut r: Vec<u64> = Vec::new();
    let mut i: usize = 0;
    while i < lats.len()
        invariant
            i <= lats@.len(),
            r@ == ascending_of(lats@.take(i as int)),
        decreases lats@.len() - i,
    {
        proof {
            assert(lats@.take(i + 1).drop_last() =~= lats@.take(i as int));
            assert(lats@.take(i + 1).last() == lats@[i as int]);
        }
        insert_ordered(&mut r, lats[i]);
        i = i + 1;
    }
    proof {
        assert(lats@.take(lats@.len() as int) =~= lats@);
    }
    r
}

/// Sums the in-flight samples into a 128-bit total, which cannot
/// overflow: each sample fits a machine word and there are at most a
/// machine word's worth of them.
fn sum_samples(samples: &Vec<usize>) -> (r: (u128, usize))
    ensures
        r.0 == sample_sum(samples@),
        r.1 == samples@.len(),
        r.0 <= r.1 as int * (usize::MAX as int),
{
    let mut sum: u128 = 0;
    let mut i: usize = 0;
    while i < samples.len()
        invariant
            i <= samples@.len(),
            sum == sample_sum(samples@.take(i as int)),
            sum <= i as int * (usize::MAX as int),
        decreases samples@.len() - i,
    {
        proof {
            assert(samples@.take(i + 1).drop_last() =~= samples@.take(i as int));
            assert(samples@.take(i + 1).last() == samples@[i as int]);
            lemma_sum_step_fits(sum as int, samples@[i as int] as int, i as int);
        }
        sum = sum + (samples[i] as u128);
        i = i + 1;
    }
    proof {
        assert(samples@.take(samples@.len() as int) =~= samples@);
    }
    (sum, samples.len())
}

/// One more machine-word-sized sample keeps the running total within
/// 128 bits.
proof fn lemma_sum_step_fits(sum: int, sample: int, i: int)
    by (nonlinear_arith)
    requires
        0 <= i < 0x1_0000_0000_0000_0000,
        0 <= sample <= usize::MAX as int,
        usize::MAX as int <= 0xffff_ffff_ffff_ffff,
        0 <= sum <= i * (usize::MAX as int),
    ensures
        sum + sample <= (i + 1) * (usize::MAX as int),
        sum + sample <= 0xffff_ffff_ffff_ffff_ffff_ffff_ffff_ffff,
{
}

} // verus!
