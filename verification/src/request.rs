//! The two requests that the feed is read with.

use vstd::prelude::*;
use vstd::string::StringExecFns;

verus! {

/// Where the feed is read from; the cursor goes into the query.
pub const FEED_ENDPOINT: &'static str = "http://www.pathofexile.com/api/public-stash-tabs";

/// Where the initial cursor is read from.
pub const BOOTSTRAP_ENDPOINT: &'static str = "https://poe.ninja/api/Data/GetStats";

/// How long a request may take, in seconds, before it counts as failed.
pub const FETCH_TIMEOUT_SECS: u64 = 30;

/// The largest response body that is read, in bytes.
pub const MAX_BODY_BYTES: u64 = 10485760;

/// A read-only GET request.
#[derive(Debug, PartialEq, Eq)]
pub struct Request {
    pub url: String,
    pub timeout_secs: u64,
    pub max_body_bytes: u64,
}

/// What a [`Request`] stands for.
pub ghost struct RequestView {
    pub url: Seq<char>,
    pub timeout_secs: u64,
    pub max_body_bytes: u64,
}

impl View for Request {
    type V = RequestView;

    open spec fn view(&self) -> RequestView {
        RequestView {
            url: self.url@,
            timeout_secs: self.timeout_secs,
            max_body_bytes: self.max_body_bytes,
        }
    }
}

impl Clone for Request {
    fn clone(&self) -> (r: Request)
        ensures
            r@ == self@,
    {
        Request {
            url: self.url.clone(),
            timeout_secs: self.timeout_secs,
            max_body_bytes: self.max_body_bytes,
        }
    }
}

/// The address of the batch that follows `cursor`.
pub open spec fn feed_url(cursor: Seq<char>) -> Seq<char> {
    FEED_ENDPOINT@ + "?id="@ + cursor
}

/// The request for the batch that follows `cursor`.
pub open spec fn feed_request_of(cursor: Seq<char>) -> RequestView {
    RequestView {
        url: feed_url(cursor),
        timeout_secs: FETCH_TIMEOUT_SECS,
        max_body_bytes: MAX_BODY_BYTES,
    }
}

/// The request for the initial cursor.
pub open spec fn bootstrap_request_of() -> RequestView {
    RequestView {
        url: BOOTSTRAP_ENDPOINT@,
        timeout_secs: FETCH_TIMEOUT_SECS,
        max_body_bytes: MAX_BODY_BYTES,
    }
}

/// The request for the batch that follows `cursor`.
pub fn feed_request(cursor: &str) -> (r: Request)
    ensures
        r@ == feed_request_of(cursor@),
{
    let mut url = FEED_ENDPOINT.to_owned();
    url.append("?id=");
    url.append(cursor);
    Request { url: url, timeout_secs: FETCH_TIMEOUT_SECS, max_body_bytes: MAX_BODY_BYTES }
}

/// The request for the initial cursor.
pub fn bootstrap_request() -> (r: Request)
    ensures
        r@ == bootstrap_request_of(),
{
    Request {
        url: BOOTSTRAP_ENDPOINT.to_owned(),
        timeout_secs: FETCH_TIMEOUT_SECS,
        max_body_bytes: MAX_BODY_BYTES,
    }
}

} // verus!
