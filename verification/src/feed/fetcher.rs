//! Conditional fetches of a feed: the validators sent with the request, and
//! what its status means.

use vstd::prelude::*;

use crate::text::opt_str;

verus! {

/// What a fetch of a feed brought back.
#[derive(Debug, Clone)]
pub struct FetchResult {
    pub body: Vec<u8>,
    /// The `ETag` header of the response.
    pub etag: Option<String>,
    /// The `Last-Modified` header of the response.
    pub last_modified: Option<String>,
}

/// The headers of a conditional request: `If-None-Match` with the entity tag
/// and `If-Modified-Since` with the time of the last version, each where known.
pub open spec fn validator_headers(etag: Option<Seq<char>>, last_modified: Option<Seq<char>>) -> Seq<(Seq<char>, Seq<char>)> {
    (match etag {
        Some(e) => seq![("If-None-Match"@, e)],
        None => Seq::empty(),
    }) + (match last_modified {
        Some(l) => seq![("If-Modified-Since"@, l)],
        None => Seq::empty(),
    })
}

/// The headers to send with a fetch of a feed last seen with `etag` and
/// `last_modified`.
pub fn conditional_headers(etag: Option<&str>, last_modified: Option<&str>) -> (r: Vec<(String, String)>)
    ensures
        r@.map_values(|h: (String, String)| (h.0@, h.1@)) == validator_headers(
            opt_str(etag),
            opt_str(last_modified),
        ),
{
    let mut headers: Vec<(String, String)> = Vec::new();
    if let Some(e) = etag {
        headers.push(("If-None-Match".to_string(), e.to_string()));
    }
    if let Some(l) = last_modified {
        headers.push(("If-Modified-Since".to_string(), l.to_string()));
    }
    proof {
        assert(headers@.map_values(|h: (String, String)| (h.0@, h.1@)) =~= validator_headers(
            opt_str(etag),
            opt_str(last_modified),
        ));
    }
    headers
}

/// What a response status means for a fetch of a feed.
#[derive(Debug, Clone, Copy, PartialEq, Eq)]
pub enum FetchStatus {
    /// 304: the feed has not changed since the validators sent.
    NotModified,
    /// A client or server error (400 to 599): the fetch fails.
    Failed,
    /// Anything else: the body is the feed.
    Body,
}

/// What the response status `status` means.
pub open spec fn status_meaning(status: int) -> FetchStatus {
    if status == 304 {
        FetchStatus::NotModified
    } else if 400 <= status < 600 {
        FetchStatus::Failed
    } else {
        FetchStatus::Body
    }
}

/// What the response status `status` means for a fetch of a feed.
pub fn fetch_status(status: u16) -> (r: FetchStatus)
    ensures
        r == status_meaning(status as int),
{
    if status == 304 {
        FetchStatus::NotModified
    } else if 400 <= status && status < 600 {
        FetchStatus::Failed
    } else {
        FetchStatus::Body
    }
}

} // verus!
