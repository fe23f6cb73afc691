//! One download request: where to fetch from and where to write to.

use vstd::prelude::*;

verus! {

/// A source locator and a destination path, immutable once created.
///
/// Paths are carried as plain strings; the application layer turns them
/// into its filesystem's path type at the edge.
#[derive(Debug)]
pub struct DownloadRequest {
    /// The URL to fetch. Non-empty.
    pub url: String,
    /// The filesystem path the body is written to; parent directories
    /// need not exist yet.
    pub destination: String,
}

impl DownloadRequest {
    /// A request is meaningful only with a non-empty locator.
    pub open spec fn wf(self) -> bool {
        self.url@.len() > 0
    }

    pub fn new(url: String, destination: String) -> (r: Self)
        requires
            url@.len() > 0,
        ensures
            r.wf(),
            r.url == url,
            r.destination == destination,
    {
        DownloadRequest { url, destination }
    }
}

} // verus!
