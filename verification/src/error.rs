//! The downloader's error taxonomy.

use vstd::prelude::*;

verus! {

/// Why a transfer, or the content-length probe, failed.
///
/// The first three kinds are all retried uniformly by the retry policy;
/// the last is surfaced immediately by the probe and never retried.
#[derive(Debug)]
pub enum DownloadError {
    /// Connection, DNS or timeout failure, with a description.
    Transport(String),
    /// A response arrived but its status lies outside the success range.
    HttpStatus(u16),
    /// Creating directories, opening, writing or flushing the
    /// destination failed, with a description.
    Filesystem(String),
    /// The metadata probe found no usable `Content-Length` header.
    ContentLengthUnavailable,
}

} // verus!
