use loadgen::metrics::MetricsAggregator;
use loadgen::outcome::ResponseOutcome;

const MS: u64 = 1_000_000;

#[test]
fn median_of_odd_sized_set_is_middle_element() {
    let mut aggregator = MetricsAggregator::new();
    // Recorded out of order: completion order carries no guarantee.
    aggregator.record_outcome(ResponseOutcome::success(30 * MS));
    aggregator.record_outcome(ResponseOutcome::success(10 * MS));
    aggregator.record_outcome(ResponseOutcome::success(20 * MS));
    let stats = aggregator.finalize(3, &Vec::new());
    assert_eq!(stats.median_latency_nanos, 20 * MS);
}

#[test]
fn median_of_even_sized_set_is_upper_median() {
    let mut aggregator = MetricsAggregator::new();
    aggregator.record_outcome(ResponseOutcome::success(30 * MS));
    aggregator.record_outcome(ResponseOutcome::success(10 * MS));
    let stats = aggregator.finalize(2, &Vec::new());
    assert_eq!(stats.median_latency_nanos, 30 * MS);
}

#[test]
fn median_without_successes_is_zero_sentinel() {
    let mut aggregator = MetricsAggregator::new();
    aggregator.record_outcome(ResponseOutcome::failure());
    aggregator.record_outcome(ResponseOutcome::failure());
    let stats = aggregator.finalize(2, &Vec::new());
    assert_eq!(stats.median_latency_nanos, 0);
}

#[test]
fn failures_do_not_enter_the_median() {
    let mut aggregator = MetricsAggregator::new();
    aggregator.record_outcome(ResponseOutcome::success(10 * MS));
    aggregator.record_outcome(ResponseOutcome::failure());
    aggregator.record_outcome(ResponseOutcome::success(20 * MS));
    let stats = aggregator.finalize(3, &Vec::new());
    // Upper median of {10 ms, 20 ms}; a failure's zero latency is not counted.
    assert_eq!(stats.median_latency_nanos, 20 * MS);
}

#[test]
fn average_in_flight_over_samples() {
    let aggregator = MetricsAggregator::new();
    let samples: Vec<usize> = vec![1, 3, 2];
    let stats = aggregator.finalize(0, &samples);
    assert_eq!(stats.sample_sum, 6);
    assert_eq!(stats.sample_count, 3);
    // 2.00 in-flight on average.
    assert_eq!(stats.average_in_flight_hundredths(), 200);
}

#[test]
fn average_without_samples_is_zero() {
    let aggregator = MetricsAggregator::new();
    let stats = aggregator.finalize(0, &Vec::new());
    assert_eq!(stats.average_in_flight_hundredths(), 0);
}

#[test]
fn success_rate_is_exact() {
    let mut aggregator = MetricsAggregator::new();
    aggregator.record_outcome(ResponseOutcome::success(10 * MS));
    aggregator.record_outcome(ResponseOutcome::success(20 * MS));
    aggregator.record_outcome(ResponseOutcome::failure());
    let stats = aggregator.finalize(3, &Vec::new());
    assert_eq!(stats.succeeded, 2);
    assert_eq!(stats.total_requested, 3);
    // 66.6 percent, rounded toward zero to tenths.
    assert_eq!(stats.success_rate_tenths(), 666);
}

#[test]
fn success_rate_of_empty_run_is_zero_by_policy() {
    let aggregator = MetricsAggregator::new();
    let stats = aggregator.finalize(0, &Vec::new());
    assert_eq!(stats.success_rate_tenths(), 0);
}

#[test]
fn success_and_failure_counts_sum_to_total() {
    let mut aggregator = MetricsAggregator::new();
    aggregator.record_outcome(ResponseOutcome::success(5 * MS));
    aggregator.record_outcome(ResponseOutcome::failure());
    aggregator.record_outcome(ResponseOutcome::success(7 * MS));
    aggregator.record_outcome(ResponseOutcome::failure());
    assert_eq!(aggregator.outcome_count(), 4);
    let stats = aggregator.finalize(4, &Vec::new());
    let failed: usize = stats.total_requested - stats.succeeded;
    assert_eq!(stats.succeeded, 2);
    assert_eq!(failed, 2);
}

#[test]
fn outcome_constructors_carry_their_fields() {
    let ok = ResponseOutcome::success(42);
    assert!(ok.succeeded);
    assert_eq!(ok.latency_nanos, 42);
    let bad = ResponseOutcome::failure();
    assert!(!bad.succeeded);
    assert_eq!(bad.latency_nanos, 0);
}
