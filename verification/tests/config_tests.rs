use loadgen::config::RunConfig;

#[test]
fn zero_interval_is_rejected() {
    assert!(RunConfig::new(0, 5).is_none());
}

#[test]
fn positive_interval_is_accepted() {
    let config = RunConfig::new(100_000_000, 5).unwrap();
    assert_eq!(config.interval_nanos, 100_000_000);
    assert_eq!(config.total, 5);
}

#[test]
fn zero_total_is_accepted() {
    let config = RunConfig::new(1_000_000_000, 0).unwrap();
    assert_eq!(config.total, 0);
}
