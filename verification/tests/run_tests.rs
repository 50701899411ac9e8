//! A full run of the core, driven synchronously in place of the real
//! network: a server that always answers after a fixed 50 ms is played
//! by recording a 50 ms success for every dispatched request.

use loadgen::config::RunConfig;
use loadgen::counter::OutstandingCounter;
use loadgen::dispatch::Dispatcher;
use loadgen::metrics::MetricsAggregator;
use loadgen::outcome::ResponseOutcome;

#[test]
fn full_run_every_request_succeeds() {
    // rate = 20.0 requests per second (50 ms gap), total = 10.
    let config = RunConfig::new(50_000_000, 10).unwrap();
    let total = config.total;

    let mut dispatcher = Dispatcher::new(config);
    let mut counter = OutstandingCounter::new();
    let mut aggregator = MetricsAggregator::new();
    let mut samples: Vec<usize> = Vec::new();

    // Dispatch every request; all are in flight at once, as when the
    // rate outruns the server's fixed 50 ms response time.
    let mut dispatched: Vec<usize> = Vec::new();
    while let Some(directive) = dispatcher.next_spawn() {
        counter.record_start();
        dispatched.push(directive.index);
    }
    assert_eq!(dispatched.len(), total);

    // A sampler tick while everything is outstanding.
    samples.push(counter.current() as usize);

    // Every request completes after the server's fixed 50 ms.
    for _ in 0..total {
        counter.record_finish();
        aggregator.record_outcome(ResponseOutcome::success(50_000_000));
    }
    samples.push(counter.current() as usize);

    assert_eq!(aggregator.outcome_count(), total);
    let stats = aggregator.finalize(total, &samples);

    // success: 100.0%
    assert_eq!(stats.success_rate_tenths(), 1000);
    // median response time: 50 ms
    assert_eq!(stats.median_latency_nanos, 50_000_000);
    // average in-flight: (10 + 0) / 2 = 5.00 > 1
    assert_eq!(stats.average_in_flight_hundredths(), 500);
    assert!(stats.average_in_flight_hundredths() > 100);

    // Recomputing from the same frozen statistics changes nothing.
    assert_eq!(stats.success_rate_tenths(), stats.success_rate_tenths());
    let again = aggregator.finalize(total, &samples);
    assert_eq!(again, stats);
}
