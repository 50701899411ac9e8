use loadgen::config::RunConfig;
use loadgen::dispatch::{dispatch_offsets, Dispatcher};

#[test]
fn exactly_total_directives_are_issued() {
    let config = RunConfig::new(100_000_000, 5).unwrap();
    let mut dispatcher = Dispatcher::new(config);
    let mut issued: usize = 0;
    while let Some(directive) = dispatcher.next_spawn() {
        assert_eq!(directive.index, issued);
        assert_eq!(directive.sleep_nanos, 100_000_000);
        issued += 1;
    }
    assert_eq!(issued, 5);
    assert_eq!(dispatcher.issued(), 5);
    // Exhausted: every further tick declines.
    assert!(dispatcher.next_spawn().is_none());
}

#[test]
fn zero_total_spawns_nothing() {
    let config = RunConfig::new(1_000_000, 0).unwrap();
    let mut dispatcher = Dispatcher::new(config);
    assert!(dispatcher.next_spawn().is_none());
    assert_eq!(dispatcher.issued(), 0);
}

#[test]
fn cadence_plan_is_one_interval_apart() {
    // rate = 10.0 requests per second gives a 100 ms inter-arrival gap.
    let config = RunConfig::new(100_000_000, 5).unwrap();
    let offsets = dispatch_offsets(&config);
    assert_eq!(
        offsets,
        vec![0, 100_000_000, 200_000_000, 300_000_000, 400_000_000]
    );
}

#[test]
fn dispatch_span_is_total_minus_one_gaps() {
    let config = RunConfig::new(100_000_000, 5).unwrap();
    let offsets = dispatch_offsets(&config);
    // The wall-clock span from first to last dispatch: four gaps, 400 ms.
    assert_eq!(offsets[offsets.len() - 1] - offsets[0], 400_000_000);
}

#[test]
fn empty_plan_for_zero_total() {
    let config = RunConfig::new(100_000_000, 0).unwrap();
    let offsets = dispatch_offsets(&config);
    assert!(offsets.is_empty());
}
