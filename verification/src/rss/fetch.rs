//! Fetching one feed over HTTP.
//!
//! The download itself is `ureq`'s; the URL check, the error text and the
//! parse of what came back are decided here.

use vstd::prelude::*;
use std::io::Read;
use crate::format::is_http_url_spec;
use crate::rss::parse::{parse_document, parse_post, ParsedFeed};
use crate::textutil::{chars_of, push_char, trim, trim_seq};

verus! {

/// Largest response body read, in bytes.
pub const MAX_BYTES: u64 = 2_000_000;

/// `User-Agent` of feed requests.
pub const USER_AGENT: &'static str = "mithka-gpui/0.1.0";

/// Request timeout, in seconds.
pub const TIMEOUT_SECS: u64 = 20;

/// Redirects followed.
pub const REDIRECTS: u32 = 5;

/// What a feed fetch asks the network for: the URL, and the user agent,
/// timeout, redirect limit and body cap of every feed request.
pub struct FeedRequest {
    pub url: String,
    pub user_agent: String,
    pub timeout_secs: u64,
    pub redirects: u32,
    pub max_bytes: u64,
}

/// The request for a feed URL: `None` when it is not http(s), else a GET
/// of that URL with [`USER_AGENT`], [`TIMEOUT_SECS`], [`REDIRECTS`] and
/// [`MAX_BYTES`].
pub fn feed_request(url: &str) -> (r: Option<FeedRequest>)
    ensures
        match r {
            None => !is_http_url_spec(url@),
            Some(q) => {
                &&& is_http_url_spec(url@)
                &&& q.url@ == url@
                &&& q.user_agent@ == USER_AGENT@
                &&& q.timeout_secs == TIMEOUT_SECS
                &&& q.redirects == REDIRECTS
                &&& q.max_bytes == MAX_BYTES
            },
        },
{
    if !crate::format::is_http_url(url) {
        return None;
    }
    Some(FeedRequest {
        url: url.to_owned(),
        user_agent: USER_AGENT.to_owned(),
        timeout_secs: TIMEOUT_SECS,
        redirects: REDIRECTS,
        max_bytes: MAX_BYTES,
    })
}

/// A `ureq` 2 GET of the request's URL with its user agent, timeout and
/// redirect limit, reading at most `max_bytes` of the body; an error is
/// ureq's or the read's text. It depends on the network, so nothing is
/// claimed of what comes back.
#[verifier::external_body]
fn http_get(request: &FeedRequest) -> (r: Result<Vec<u8>, String>) {
    let agent = ureq::AgentBuilder::new().timeout(std::time::Duration::from_secs(request.timeout_secs)).redirects(
        request.redirects,
    ).build();
    let response = agent.get(&request.url).set("User-Agent", &request.user_agent).call().map_err(|err| err.to_string())?;
    let mut bytes = Vec::new();
    response.into_reader().take(request.max_bytes).read_to_end(&mut bytes).map_err(|err| err.to_string())?;
    Ok(bytes)
}

/// An error message trimmed and cut to 180 characters plus `…`.
pub open spec fn shorten_spec(m: Seq<char>) -> Seq<char> {
    let t = trim_seq(m);
    if t.len() > 180 {
        t.take(180).push('…')
    } else {
        t
    }
}

/// An error message trimmed and cut to 180 characters plus `…`.
pub fn shorten(message: &str) -> (r: String)
    ensures
        r@ == shorten_spec(message@),
{
    let t = trim(message);
    let chars = chars_of(t.as_str());
    if chars.len() <= 180 {
        return t;
    }
    let mut out = String::new();
    let mut i: usize = 0;
    while i < 180
        invariant
            i <= 180 < chars.len(),
            out@ == chars@.take(i as int),
        decreases 180 - i,
    {
        push_char(&mut out, chars[i]);
        i += 1;
        assert(out@ =~= chars@.take(i as int));
    }
    push_char(&mut out, '…');
    out
}

pub open spec fn not_http_message() -> Seq<char> {
    "Feed URL must be http or https."@
}

pub open spec fn empty_response_message() -> Seq<char> {
    "The feed response was empty."@
}

/// What a fetch gives for what the download returned: a shortened error,
/// an error for an empty body, or the parse of the body.
pub open spec fn finish_fetch_post(
    downloaded: Result<Vec<u8>, String>,
    source_id: Seq<char>,
    r: Result<ParsedFeed, String>,
) -> bool {
    match downloaded {
        Err(m) => (r matches Err(e) && e@ == shorten_spec(m@)),
        Ok(b) => if b@.len() == 0 {
            (r matches Err(e) && e@ == empty_response_message())
        } else {
            parse_post(b@, source_id, r)
        },
    }
}

/// What a fetch gives for what the download returned: a shortened error,
/// an error for an empty body, or the parsed feed.
pub fn finish_fetch(downloaded: Result<Vec<u8>, String>, source_id: &str) -> (r: Result<ParsedFeed, String>)
    ensures
        finish_fetch_post(downloaded, source_id@, r),
{
    match downloaded {
        Err(m) => Err(shorten(m.as_str())),
        Ok(bytes) => {
            if bytes.len() == 0 {
                return Err("The feed response was empty.".to_owned());
            }
            parse_document(bytes.as_slice(), source_id)
        },
    }
}

/// What fetching `url` gives: a URL that is not http(s) is refused before
/// anything is sent; any other is downloaded, and the result is what
/// [`finish_fetch`] makes of the download.
pub open spec fn fetch_post(url: Seq<char>, source_id: Seq<char>, r: Result<ParsedFeed, String>) -> bool {
    if is_http_url_spec(url) {
        exists|d: Result<Vec<u8>, String>| #[trigger] finish_fetch_post(d, source_id, r)
    } else {
        r matches Err(e) && e@ == not_http_message()
    }
}

/// Fetches and parses one feed. A URL that is not http(s) is refused before
/// anything is sent; otherwise the request of [`feed_request`] goes out and
/// the result is [`finish_fetch`] of what came back.
pub fn fetch_feed(url: &str, source_id: &str) -> (r: Result<ParsedFeed, String>)
    ensures
        fetch_post(url@, source_id@, r),
{
    match feed_request(url) {
        None => Err("Feed URL must be http or https.".to_owned()),
        Some(request) => {
            let downloaded = http_get(&request);
            let ghost d = downloaded;
            let r = finish_fetch(downloaded, source_id);
            assert(finish_fetch_post(d, source_id@, r));
            r
        },
    }
}

} // verus!
