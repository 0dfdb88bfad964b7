//! Local RSS, Atom, and JSON Feed subscriptions.

pub mod fetch;
pub mod guard;
pub mod parse;
pub mod store;
pub mod text;

use vstd::prelude::*;
use crate::rss::parse::{ParsedFeed, ParsedItem};
use crate::rss::fetch::{fetch_feed, fetch_post};

verus! {

/// A request to refresh one source.
#[derive(Clone, Debug)]
pub struct RefreshRequest {
    pub id: String,
    pub url: String,
}

/// The result of one refresh.
#[derive(Clone, Debug)]
pub enum FeedEvent {
    Fetched { id: String, title: String, items: Vec<ParsedItem> },
    Failed { id: String, message: String },
}

/// The event of source `id` for a fetch result: the feed's title and
/// items, or the error text.
pub open spec fn event_of(e: FeedEvent, id: Seq<char>, result: Result<ParsedFeed, String>) -> bool {
    match (e, result) {
        (FeedEvent::Fetched { id: i, title, items }, Ok(feed)) => i@ == id && title == feed.title && items
            == feed.items,
        (FeedEvent::Failed { id: i, message }, Err(m)) => i@ == id && message == m,
        _ => false,
    }
}

/// The event a refresh of source `id` reports: the feed's title and items,
/// or the error text.
pub fn refresh_event(id: String, result: Result<ParsedFeed, String>) -> (e: FeedEvent)
    ensures
        event_of(e, id@, result),
{
    match result {
        Ok(parsed) => FeedEvent::Fetched { id, title: parsed.title, items: parsed.items },
        Err(message) => FeedEvent::Failed { id, message },
    }
}

/// Fetches one source and reports the outcome. A URL that is not http(s)
/// fails before anything is sent.
pub fn run_refresh(request: RefreshRequest) -> (e: FeedEvent)
    ensures
        exists|r: Result<ParsedFeed, String>| fetch_post(request.url@, request.id@, r) && #[trigger] event_of(
            e,
            request.id@,
            r,
        ),
{
    let result = fetch_feed(request.url.as_str(), request.id.as_str());
    let ghost r = result;
    let e = refresh_event(request.id, result);
    assert(fetch_post(request.url@, request.id@, r) && event_of(e, request.id@, r));
    e
}

} // verus!
