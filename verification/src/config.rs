//! Configuration shared by every transfer of one downloader.

use vstd::prelude::*;

verus! {

/// Immutable settings for a downloader instance.
///
/// Durations are carried as whole milliseconds, so the retry and timeout
/// bookkeeping stays on plain integers; the application layer converts
/// them to its clock's duration type at the edge.
#[derive(Debug, Clone)]
pub struct DownloaderConfig {
    /// How many transfers may be attempting at once. At least 1.
    pub max_concurrent_downloads: usize,
    /// Per-request timeout, in milliseconds.
    pub timeout_ms: u64,
    /// Optional user-agent header sent with every request.
    pub user_agent: Option<String>,
    /// Total attempts allowed per request; 1 means no retry. At least 1.
    pub retry_attempts: u32,
    /// Delay between two attempts of one request, in milliseconds.
    pub retry_delay_ms: u64,
}

impl DownloaderConfig {
    /// The bounds every component relies on: at least one permit and at
    /// least one attempt.
    pub open spec fn wf(self) -> bool {
        &&& self.max_concurrent_downloads >= 1
        &&& self.retry_attempts >= 1
    }
}

impl Default for DownloaderConfig {
    /// Eight parallel transfers, a 30 s timeout, five attempts one
    /// second apart, and a generic user agent.
    fn default() -> (c: Self)
        ensures
            c.wf(),
            c.max_concurrent_downloads == 8,
            c.timeout_ms == 30_000,
            c.user_agent is Some,
            c.user_agent.unwrap()@ == "Mozilla/5.0 (compatible; Downloader/1.0)"@,
            c.retry_attempts == 5,
            c.retry_delay_ms == 1_000,
    {
        DownloaderConfig {
            max_concurrent_downloads: 8,
            timeout_ms: 30_000,
            user_agent: Some("Mozilla/5.0 (compatible; Downloader/1.0)".to_owned()),
            retry_attempts: 5,
            retry_delay_ms: 1_000,
        }
    }
}

} // verus!
