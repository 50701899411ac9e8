use loadgen::counter::OutstandingCounter;

#[test]
fn fresh_counter_has_nothing_outstanding() {
    let counter = OutstandingCounter::new();
    assert_eq!(counter.current(), 0);
}

#[test]
fn outstanding_equals_starts_minus_finishes() {
    let mut counter = OutstandingCounter::new();
    counter.record_start();
    counter.record_start();
    counter.record_start();
    assert_eq!(counter.current(), 3);
    counter.record_finish();
    assert_eq!(counter.current(), 2);
    counter.record_finish();
    counter.record_finish();
    assert_eq!(counter.current(), 0);
}

#[test]
fn start_finish_brackets_nest() {
    let mut counter = OutstandingCounter::new();
    counter.record_start();
    counter.record_start();
    counter.record_finish();
    counter.record_start();
    assert_eq!(counter.current(), 2);
}
