//! Wrapper library for running a monitored child command: it captures the
//! child's two output streams as tagged chunks, merges them into one ordered
//! delivered sequence, retains a bounded window of the most recent output
//! lines, normalizes the child's exit status, and decides which report
//! (start, complete, failure) the monitoring endpoint is owed.

pub mod api;
pub mod monitorid;
pub mod processtools;
pub mod runner;
pub mod strutil;
pub mod utils;

pub use api::ApiError;
pub use api::ApiResponse;
pub use api::Method;
pub use api::MonitorStatus;
pub use api::ReportKind;
pub use monitorid::MonitorError;
pub use monitorid::MonitorId;
pub use processtools::Chunk;
pub use processtools::LineBuffer;
pub use processtools::ProcessIterator;
pub use runner::RawStatus;
pub use runner::ReportAction;
pub use runner::ReportOutcome;
pub use runner::get_unix_exit_status;
pub use runner::normalize_exit_code;
