//! Core logic of a bounded-concurrency, retrying file downloader.
//!
//! The library models the decisions the downloader makes: which HTTP
//! statuses count as success, how a failed attempt is retried, how many
//! transfers may run at once, and how a batch of requests is driven to a
//! full set of outcomes. The surrounding application performs the actual
//! network and filesystem work and feeds the results back as plain values.

pub mod batch;
pub mod config;
pub mod content_length;
pub mod error;
pub mod limiter;
pub mod module;
pub mod request;
pub mod retry;
pub mod transfer;
