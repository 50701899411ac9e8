//! Core of an open-loop HTTP load generator: a rate-controlled dispatch
//! plan, a live count of outstanding requests, and aggregation of
//! per-request outcomes into final run statistics.
//!
//! Durations are carried as nanosecond counts so that every statistic is
//! computed exactly; the thin binary around this library converts to and
//! from `std::time` types and performs all network I/O.

pub mod config;
pub mod counter;
pub mod dispatch;
pub mod metrics;
pub mod outcome;
