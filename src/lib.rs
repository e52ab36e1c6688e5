//! bcurl: a small HTTP client core.
//!
//! The library describes requests, checks and normalizes what goes on the
//! wire and what comes back, renders output, and decides how a batch of URLs
//! is run and reported. The network round trip and file writes are left to
//! the caller, which hands the library plain values.
pub mod batch;
pub mod config;
pub mod error;
pub mod exchange;
pub mod executor;
pub mod header;
pub mod method;
pub mod response;
pub mod text;

pub use batch::batch_urls;
pub use config::RequestConfig;
pub use error::CurlError;
pub use exchange::{complete_exchange, header_text, plan_request, saved_output, Exchange, RequestPlan};
pub use executor::{
    all_succeeded, config_for_url, exit_status, order_outcomes, parallel_report, runs_in_parallel,
    sequential_report, succeeded, total_time_line, BatchOptions, Outcome, Report, SequentialRun,
};
pub use header::{parse_header, parse_header_list};
pub use method::{parse_method, resolve_method, HttpMethod};
pub use response::CurlResponse;
