//! A lightweight sampling counter: a named accumulator that counts events,
//! counts the calls that delivered them, and every N calls produces a report
//! holding the delta accrued since the last report.

pub mod config;
pub mod counter;
pub mod digits;
pub mod laws;
pub mod report;

pub use config::default_log_rate;
pub use config::DEFAULT_METRICS_RATE;
pub use counter::Counter;
pub use counter::Report;
