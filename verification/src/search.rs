//! The global chat search of the desktop session: the query, its
//! generation, the replies still outstanding, and the hits in reply order.

use vstd::prelude::*;
use crate::shell::{
    chats_view, ids_unique, merge_ids, merge_search_ids, note_search_done, public_search_query,
    public_search_query_spec, search_chats, search_rows, untitled_hits, ChatItem, ChatItemView,
};
use crate::textutil::{trim, trim_seq};

verus! {

pub struct SearchState {
    query: String,
    generation: u64,
    pending: u8,
    error: bool,
    ids: Vec<i64>,
}

#[verifier::ext_equal]
pub struct SearchView {
    /// The trimmed query; empty means no search.
    pub query: Seq<char>,
    /// Tags the replies of the current query; older replies are dropped.
    pub generation: u64,
    /// How many replies of this generation are still outstanding.
    pub pending: u8,
    /// Whether one of them failed.
    pub error: bool,
    /// The chat ids of the hits, each once, in the order replies brought
    /// them.
    pub ids: Seq<i64>,
}

impl View for SearchState {
    type V = SearchView;

    closed spec fn view(&self) -> SearchView {
        SearchView {
            query: self.query@,
            generation: self.generation,
            pending: self.pending,
            error: self.error,
            ids: self.ids@,
        }
    }
}

/// What a new query asks for.
#[derive(Debug, PartialEq, Eq)]
pub enum SearchStart {
    /// The query is empty: the search is cleared.
    Cleared,
    /// TDLib is not ready: nothing is asked.
    NotReady,
    /// `searchChats` and `searchChatsOnServer` with this generation and
    /// limit, and `searchPublicChats` for the username when there is one.
    Sent { generation: u64, limit: i32, public: Option<String> },
}

/// The next generation; it wraps around.
pub open spec fn next_generation(g: u64) -> u64 {
    if g == u64::MAX { 0 } else { (g + 1) as u64 }
}

/// The result limit of a search: the chat limit within `1..=50`.
pub open spec fn search_limit(chat_limit: i32) -> i32 {
    if chat_limit < 1 { 1 } else if chat_limit > 50 { 50 } else { chat_limit }
}

/// The search after a new query: a new generation with no hits, no error
/// and, when requests go out, one reply outstanding per request.
pub open spec fn start_spec(s: SearchView, query: Seq<char>, ready: bool) -> SearchView {
    let q = trim_seq(query);
    let pending: u8 = if q.len() == 0 || !ready {
        0
    } else if public_search_query_spec(q) is Some {
        3
    } else {
        2
    };
    SearchView { query: q, generation: next_generation(s.generation), pending, error: false, ids: Seq::empty() }
}

pub open spec fn opt_seq(o: Option<String>) -> Option<Seq<char>> {
    match o {
        Some(s) => Some(s@),
        None => None,
    }
}

/// What a new query asks for, given the search after it.
pub open spec fn start_matches(r: SearchStart, after: SearchView, ready: bool, chat_limit: i32) -> bool {
    match r {
        SearchStart::Cleared => after.query.len() == 0,
        SearchStart::NotReady => after.query.len() > 0 && !ready,
        SearchStart::Sent { generation, limit, public } => {
            &&& after.query.len() > 0
            &&& ready
            &&& generation == after.generation
            &&& limit == search_limit(chat_limit)
            &&& opt_seq(public) == public_search_query_spec(after.query)
        },
    }
}

/// The search after a request of generation `generation` failed: for the
/// current generation, the search has an error and one reply fewer is
/// outstanding; otherwise nothing changes.
pub open spec fn error_spec(s: SearchView, generation: u64) -> SearchView {
    if generation == s.generation {
        SearchView { error: true, pending: if s.pending == 0 { 0 } else { (s.pending - 1) as u8 }, ..s }
    } else {
        s
    }
}

/// A search reply with chat ids for generation `generation`: dropped
/// (`None`) for another generation or when there is no query; otherwise the
/// new ids join the hits and one reply fewer is outstanding, and the result
/// is the new hits without a known title, and whether the search is now
/// complete without error.
pub open spec fn reply_spec(
    s: SearchView,
    generation: u64,
    incoming: Seq<i64>,
    chats: Seq<ChatItemView>,
) -> (SearchView, Option<(Seq<i64>, bool)>) {
    if s.generation != generation || s.query.len() == 0 {
        (s, None)
    } else {
        let pending: u8 = if s.pending == 0 { 0 } else { (s.pending - 1) as u8 };
        (
            SearchView { ids: merge_ids(s.ids, incoming), pending, ..s },
            Some((untitled_hits(s.ids, incoming, chats), pending == 0 && !s.error)),
        )
    }
}

impl SearchState {
    /// No two hits are the same chat.
    pub open spec fn wf(&self) -> bool {
        ids_unique(self@.ids)
    }

    pub fn new() -> (s: Self)
        ensures
            s.wf(),
            s@.query.len() == 0 && s@.generation == 0 && s@.pending == 0 && !s@.error && s@.ids.len() == 0,
    {
        SearchState { query: String::new(), generation: 0, pending: 0, error: false, ids: Vec::new() }
    }

    pub fn query(&self) -> (r: &str)
        ensures
            r@ == self@.query,
    {
        self.query.as_str()
    }

    pub fn generation(&self) -> (r: u64)
        ensures
            r == self@.generation,
    {
        self.generation
    }

    pub fn pending(&self) -> (r: u8)
        ensures
            r == self@.pending,
    {
        self.pending
    }

    pub fn error(&self) -> (r: bool)
        ensures
            r == self@.error,
    {
        self.error
    }

    pub fn ids(&self) -> (r: &[i64])
        ensures
            r@ == self@.ids,
    {
        self.ids.as_slice()
    }

    /// A new query. `ready` says TDLib is ready and the session has not
    /// failed.
    pub fn start(&mut self, query: &str, ready: bool, chat_limit: i32) -> (r: SearchStart)
        ensures
            final(self).wf(),
            final(self)@ == start_spec(old(self)@, query@, ready),
            start_matches(r, final(self)@, ready, chat_limit),
    {
        let q = trim(query);
        self.generation = if self.generation == u64::MAX { 0 } else { self.generation + 1 };
        self.ids = Vec::new();
        self.pending = 0;
        self.error = false;
        assert(self.ids@ =~= Seq::<i64>::empty());
        if q.as_str().is_empty() {
            self.query = q;
            return SearchStart::Cleared;
        }
        if !ready {
            self.query = q;
            return SearchStart::NotReady;
        }
        let limit = if chat_limit < 1 { 1 } else if chat_limit > 50 { 50 } else { chat_limit };
        let public = public_search_query(q.as_str());
        self.pending = if public.is_some() { 3 } else { 2 };
        self.query = q;
        SearchStart::Sent { generation: self.generation, limit, public }
    }

    /// A search reply with chat ids for generation `generation`. Replies of
    /// another generation, or with no query, are dropped (`None`). Otherwise
    /// the new ids join the hits, one reply fewer is outstanding, and the
    /// result is the new hits without a known title, and whether the search
    /// is now complete without error.
    pub fn on_chats(&mut self, generation: u64, incoming: &[i64], chats: &[ChatItem]) -> (r: Option<(Vec<i64>, bool)>)
        requires
            old(self).wf(),
        ensures
            final(self).wf(),
            final(self)@ == reply_spec(old(self)@, generation, incoming@, chats_view(chats@)).0,
            match r {
                Some((missing, done)) => reply_spec(old(self)@, generation, incoming@, chats_view(chats@)).1
                    == Some((missing@, done)),
                None => reply_spec(old(self)@, generation, incoming@, chats_view(chats@)).1 is None,
            },
    {
        if generation != self.generation || self.query.as_str().is_empty() {
            return None;
        }
        proof {
            crate::shell::law_search_hits_unique(self@.ids, incoming@);
        }
        let missing = merge_search_ids(&mut self.ids, incoming, chats);
        let done = note_search_done(generation, self.generation, &mut self.pending, self.error);
        Some((missing, done))
    }

    /// A search request of generation `generation` failed. Returns whether
    /// it is the current generation; then the search has an error, and one
    /// reply fewer is outstanding.
    pub fn on_error(&mut self, generation: u64) -> (current: bool)
        requires
            old(self).wf(),
        ensures
            final(self).wf(),
            current == (generation == old(self)@.generation),
            final(self)@ == error_spec(old(self)@, generation),
    {
        let current = generation == self.generation;
        if current {
            self.error = true;
        }
        note_search_done(generation, self.generation, &mut self.pending, self.error);
        current
    }

    /// The hits the chat table has a title for, in hit order.
    pub fn results(&self, chats: &[ChatItem]) -> (r: Vec<ChatItem>)
        ensures
            chats_view(r@) == search_rows(self@.ids, chats_view(chats@)),
    {
        search_chats(self.ids.as_slice(), chats)
    }
}

} // verus!
