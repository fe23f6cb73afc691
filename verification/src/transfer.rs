//! One download attempt: response validation and the destination-file model.

use vstd::prelude::*;

use crate::error::DownloadError;

verus! {

/// An HTTP status code counts as success exactly when it lies in the
/// 2xx range.
pub open spec fn spec_status_is_success(code: u16) -> bool {
    200 <= code && code < 300
}

/// Executable check for the 2xx success range.
pub fn status_is_success(code: u16) -> (r: bool)
    ensures
        r == spec_status_is_success(code),
{
    200 <= code && code < 300
}

/// Decide whether a response may be streamed to disk: a status outside
/// the success range fails the attempt at once, carrying the code.
pub fn classify_status(code: u16) -> (r: Result<(), DownloadError>)
    ensures
        r is Ok <==> spec_status_is_success(code),
        !spec_status_is_success(code) ==> r == Err::<(), DownloadError>(
            DownloadError::HttpStatus(code),
        ),
{
    if status_is_success(code) {
        Ok(())
    } else {
        Err(DownloadError::HttpStatus(code))
    }
}

/// The two request shapes the downloader issues.
pub enum HttpMethod {
    /// A full transfer of the body.
    Get,
    /// A metadata-only request: headers, no body.
    Head,
}

/// What one network request should look like, decided before any I/O.
pub struct RequestPlan {
    pub method: HttpMethod,
    pub url: String,
}

/// A download attempt always fetches the full body with GET.
pub fn plan_download(url: &String) -> (p: RequestPlan)
    ensures
        p.method is Get,
        p.url@ == url@,
{
    RequestPlan { method: HttpMethod::Get, url: url.clone() }
}

/// The content-length probe never transfers a body: it issues HEAD,
/// not GET.
pub fn plan_probe(url: &String) -> (p: RequestPlan)
    ensures
        p.method is Head,
        p.url@ == url@,
{
    RequestPlan { method: HttpMethod::Head, url: url.clone() }
}

/// The bytes a destination file holds once every chunk of a body has
/// been appended to an empty file, in arrival order.
pub open spec fn spec_body_bytes(chunks: Seq<Seq<u8>>) -> Seq<u8>
    decreases chunks.len(),
{
    if chunks.len() == 0 {
        Seq::empty()
    } else {
        spec_body_bytes(chunks.drop_last()) + chunks.last()
    }
}

/// The views of a vector of byte chunks.
pub open spec fn spec_chunk_views(chunks: Seq<Vec<u8>>) -> Seq<Seq<u8>> {
    chunks.map_values(|c: Vec<u8>| c@)
}

/// The model of the destination file an attempt writes: the byte
/// contents at the destination path.
#[derive(Debug)]
pub struct DestinationFile {
    pub contents: Vec<u8>,
}

impl DestinationFile {
    /// A destination that does not exist yet.
    pub fn absent() -> (f: Self)
        ensures
            f.contents@ == Seq::<u8>::empty(),
    {
        DestinationFile { contents: Vec::new() }
    }

    /// Opening the destination for an attempt recreates it from
    /// scratch: whatever it held before is discarded.
    pub fn truncate(&mut self)
        ensures
            final(self).contents@ == Seq::<u8>::empty(),
    {
        self.contents.clear();
    }

    /// One chunk arrives and is appended as-is.
    pub fn write_chunk(&mut self, chunk: &[u8])
        ensures
            final(self).contents@ == old(self).contents@ + chunk@,
    {
        self.contents.extend_from_slice(chunk);
    }
}

/// Stream a whole response body to the destination: truncate, then
/// append each chunk as it arrives.
///
/// The final contents are exactly the body's bytes, whatever the file
/// held before the attempt — a rerun over a previously larger file
/// leaves no residual bytes.
pub fn stream_body(file: &mut DestinationFile, chunks: &Vec<Vec<u8>>)
    ensures
        final(file).contents@ == spec_body_bytes(spec_chunk_views(chunks@)),
{
    file.truncate();
    let ghost views = spec_chunk_views(chunks@);
    let mut i: usize = 0;
    while i < chunks.len()
        invariant
            i <= chunks.len(),
            views == spec_chunk_views(chunks@),
            file.contents@ == spec_body_bytes(views.take(i as int)),
        decreases chunks.len() - i,
    {
        file.write_chunk(chunks[i].as_slice());
        proof {
            assert(views.take(i + 1).drop_last() =~= views.take(i as int));
            assert(views.take(i + 1).last() == views[i as int]);
        }
        i = i + 1;
    }
    proof {
        assert(views.take(chunks@.len() as int) =~= views);
    }
}

} // verus!
