//! Bulk loading of an ordered record set into a document store: batching,
//! identifier assignment, throttled dispatch and the reduction of per-batch
//! outcomes into one tally.

pub mod batch;
pub mod config;
pub mod engine;
pub mod error;
pub mod report;
pub mod request;
pub mod response;
pub mod tally;
pub mod throttle;
