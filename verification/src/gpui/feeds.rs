//! The subscriptions panel: which source is selected, which item is open,
//! the status line, and how many refreshes are in flight. Fetching is the
//! feed client's; the panel decides what to ask for and what a result does
//! to the store.

use vstd::prelude::*;
use crate::rss::parse::ParsedItem;
use crate::rss::store::{
    add_source_spec, display_name_spec, item_has_id, replace_items_spec, set_title_spec,
    source_has_id, StoreView, SubscriptionStore,
};
use crate::rss::{FeedEvent, RefreshRequest};
use crate::seqs::first_where;
use crate::shell::opt_text;
use crate::textutil::{chars_of, decimal, push_decimal, trim, trim_seq};

verus! {

pub struct FeedPanel {
    store: SubscriptionStore,
    source: Option<String>,
    open_item: Option<String>,
    status: String,
    refreshing: u32,
}

pub struct FeedPanelView {
    pub store: StoreView,
    pub source: Option<Seq<char>>,
    pub open_item: Option<Seq<char>>,
    pub status: Seq<char>,
    pub refreshing: u32,
}

impl View for FeedPanel {
    type V = FeedPanelView;

    closed spec fn view(&self) -> FeedPanelView {
        FeedPanelView {
            store: self.store@,
            source: opt_text(self.source),
            open_item: opt_text(self.open_item),
            status: self.status@,
            refreshing: self.refreshing,
        }
    }
}

pub const REFRESHING: &'static str = "Refreshing…";
pub const NO_FEEDS: &'static str = "Add a feed URL first.";

/// `n + k`, or `u32::MAX` when that overflows.
pub open spec fn sat_add(n: u32, k: int) -> u32 {
    if n + k > u32::MAX { u32::MAX } else { (n + k) as u32 }
}

/// The name a status line uses for a source: its display name, or its id
/// when the store no longer has it.
pub open spec fn source_name(s: StoreView, id: Seq<char>) -> Seq<char> {
    match first_where(s.sources, source_has_id(id)) {
        Some(i) => display_name_spec(s.sources[i]),
        None => id,
    }
}

/// The panel after a refresh result arrives, and whether the store needs
/// saving.
pub open spec fn apply_spec(p: FeedPanelView, id: Seq<char>, result: Result<(Seq<char>, Seq<crate::rss::parse::ParsedItemView>), Seq<char>>) -> (FeedPanelView, bool) {
    let refreshing = if p.refreshing == 0 { 0u32 } else { (p.refreshing - 1) as u32 };
    match result {
        Ok((title, items)) => {
            let s1 = if title.len() > 0 { set_title_spec(p.store, id, title).0 } else { p.store };
            let (s2, replaced) = replace_items_spec(s1, id, items);
            let open = match p.open_item {
                Some(o) => if first_where(s2.items, item_has_id(o)) is None { None } else { Some(o) },
                None => None,
            };
            (
                FeedPanelView {
                    store: s2,
                    open_item: open,
                    status: "Updated "@ + source_name(s2, id) + " ("@ + decimal(items.len()) + ")"@,
                    refreshing,
                    ..p
                },
                replaced,
            )
        },
        Err(message) => (
            FeedPanelView { status: source_name(p.store, id) + ": "@ + message, refreshing, ..p },
            false,
        ),
    }
}

/// The panel after the URL typed in is committed, and the refresh to ask
/// for when it was added.
pub open spec fn commit_spec(p: FeedPanelView, draft: Seq<char>) -> (FeedPanelView, Option<(Seq<char>, Seq<char>)>) {
    let url = trim_seq(draft);
    if url.len() == 0 {
        (p, None)
    } else {
        let (s1, r) = add_source_spec(p.store, url);
        match r {
            Ok(id) => {
                let fetch_url = match first_where(s1.sources, source_has_id(id)) {
                    Some(i) => s1.sources[i].url,
                    None => url,
                };
                (
                    FeedPanelView {
                        store: s1,
                        source: Some(id),
                        open_item: None,
                        status: REFRESHING@,
                        refreshing: sat_add(p.refreshing, 1),
                    },
                    Some((id, fetch_url)),
                )
            },
            Err(m) => (FeedPanelView { store: s1, status: m, ..p }, None),
        }
    }
}

/// The refreshes the refresh button asks for: the selected source, or all
/// of them.
pub open spec fn refresh_jobs(p: FeedPanelView) -> Seq<(Seq<char>, Seq<char>)> {
    match p.source {
        Some(id) => match first_where(p.store.sources, source_has_id(id)) {
            Some(i) => seq![(p.store.sources[i].id, p.store.sources[i].url)],
            None => Seq::empty(),
        },
        None => p.store.sources.map_values(|s: crate::rss::store::SourceView| (s.id, s.url)),
    }
}

pub open spec fn refresh_spec(p: FeedPanelView) -> FeedPanelView {
    let jobs = refresh_jobs(p);
    if jobs.len() == 0 {
        FeedPanelView { status: NO_FEEDS@, ..p }
    } else {
        FeedPanelView { status: REFRESHING@, refreshing: sat_add(p.refreshing, jobs.len() as int), ..p }
    }
}

pub open spec fn jobs_view(v: Seq<RefreshRequest>) -> Seq<(Seq<char>, Seq<char>)> {
    v.map_values(|r: RefreshRequest| (r.id@, r.url@))
}

fn append(out: &mut Vec<char>, s: &str)
    ensures
        final(out)@ == old(out)@ + s@,
{
    let c = chars_of(s);
    crate::textutil::append_range(out, c.as_slice(), 0, c.len());
    assert(c@.subrange(0, c@.len() as int) =~= c@);
}

impl FeedPanel {
    /// A panel over a store, nothing selected or in flight.
    pub fn new(store: SubscriptionStore) -> (p: Self)
        ensures
            p@ == (FeedPanelView { store: store@, source: None, open_item: None, status: Seq::empty(), refreshing: 0 }),
    {
        FeedPanel { store, source: None, open_item: None, status: String::new(), refreshing: 0 }
    }

    pub fn store(&self) -> (r: &SubscriptionStore)
        ensures
            r@ == self@.store,
    {
        &self.store
    }

    pub fn source(&self) -> (r: Option<&str>)
        ensures
            match r { Some(s) => self@.source == Some(s@), None => self@.source is None },
    {
        match &self.source {
            Some(s) => Some(s.as_str()),
            None => None,
        }
    }

    pub fn open_item(&self) -> (r: Option<&str>)
        ensures
            match r { Some(s) => self@.open_item == Some(s@), None => self@.open_item is None },
    {
        match &self.open_item {
            Some(s) => Some(s.as_str()),
            None => None,
        }
    }

    pub fn status(&self) -> (r: &str)
        ensures
            r@ == self@.status,
    {
        self.status.as_str()
    }

    pub fn refreshing(&self) -> (r: u32)
        ensures
            r == self@.refreshing,
    {
        self.refreshing
    }

    /// Selects a source, or every source with `None`.
    pub fn select_source(&mut self, source: Option<String>)
        ensures
            final(self)@ == (FeedPanelView { source: opt_text(source), ..old(self)@ }),
    {
        self.source = source;
    }

    /// Opens one item.
    pub fn open(&mut self, item: String)
        ensures
            final(self)@ == (FeedPanelView { open_item: Some(item@), ..old(self)@ }),
    {
        self.open_item = Some(item);
    }

    /// Commits the URL typed into the feed field. When the source was
    /// added (or was there already) it is selected and the refresh to ask
    /// for is returned; the caller then saves the store and clears the field.
    pub fn commit(&mut self, draft: &str) -> (r: Option<RefreshRequest>)
        ensures
            (final(self)@, match r { Some(q) => Some((q.id@, q.url@)), None => None }) == commit_spec(
                old(self)@,
                draft@,
            ),
    {
        let url = trim(draft);
        if url.as_str().is_empty() {
            return None;
        }
        match self.store.add_source(url.as_str()) {
            Ok(id) => {
                let fetch_url = match self.store.source(id.as_str()) {
                    Some(source) => source.url.clone(),
                    None => url,
                };
                self.source = Some(id.clone());
                self.open_item = None;
                self.status = REFRESHING.to_owned();
                self.refreshing = if self.refreshing < u32::MAX { self.refreshing + 1 } else { u32::MAX };
                Some(RefreshRequest { id, url: fetch_url })
            },
            Err(message) => {
                self.status = message;
                None
            },
        }
    }

    /// Removes the selected source. Returns whether the store changed and
    /// needs saving.
    pub fn remove_selected(&mut self) -> (changed: bool)
        ensures
            match old(self)@.source {
                None => !changed && final(self)@ == old(self)@,
                Some(id) => {
                    let (s1, removed) = crate::rss::store::remove_source_spec(old(self)@.store, id);
                    &&& changed == removed
                    &&& final(self)@ == (if removed {
                        FeedPanelView { store: s1, source: None, open_item: None, status: Seq::empty(), ..old(self)@ }
                    } else {
                        old(self)@
                    })
                },
            },
    {
        let id = match &self.source {
            Some(id) => id.clone(),
            None => return false,
        };
        if self.store.remove_source(id.as_str()) {
            self.source = None;
            self.open_item = None;
            self.status = String::new();
            true
        } else {
            false
        }
    }

    /// The refreshes the refresh button asks for: the selected source, or
    /// every source.
    pub fn refresh(&mut self) -> (jobs: Vec<RefreshRequest>)
        ensures
            jobs_view(jobs@) == refresh_jobs(old(self)@),
            final(self)@ == refresh_spec(old(self)@),
    {
        let mut jobs: Vec<RefreshRequest> = Vec::new();
        match &self.source {
            Some(id) => {
                if let Some(source) = self.store.source(id.as_str()) {
                    jobs.push(RefreshRequest { id: source.id.clone(), url: source.url.clone() });
                }
            },
            None => {
                let sources = self.store.sources();
                let mut i: usize = 0;
                while i < sources.len()
                    invariant
                        i <= sources.len(),
                        crate::rss::store::sources_view(sources@) == self@.store.sources,
                        jobs_view(jobs@) == self@.store.sources.take(i as int).map_values(
                            |s: crate::rss::store::SourceView| (s.id, s.url),
                        ),
                    decreases sources.len() - i,
                {
                    let ghost before = jobs@;
                    assert(sources@[i as int]@ == self@.store.sources[i as int]);
                    jobs.push(RefreshRequest { id: sources[i].id.clone(), url: sources[i].url.clone() });
                    assert(jobs_view(jobs@) =~= jobs_view(before).push(
                        (self@.store.sources[i as int].id, self@.store.sources[i as int].url),
                    ));
                    assert(self@.store.sources.take(i + 1) =~= self@.store.sources.take(i as int).push(
                        self@.store.sources[i as int],
                    ));
                    assert(jobs_view(jobs@) =~= self@.store.sources.take(i + 1).map_values(
                        |s: crate::rss::store::SourceView| (s.id, s.url),
                    ));
                    i += 1;
                }
                assert(self@.store.sources.take(sources.len() as int) =~= self@.store.sources);
            },
        }
        if jobs.len() == 0 {
            self.status = NO_FEEDS.to_owned();
            return jobs;
        }
        self.status = REFRESHING.to_owned();
        let total: u128 = self.refreshing as u128 + jobs.len() as u128;
        self.refreshing = if total <= u32::MAX as u128 { total as u32 } else { u32::MAX };
        jobs
    }

    /// A refresh result arrived. Returns whether the store changed and
    /// needs saving.
    pub fn apply(&mut self, event: FeedEvent) -> (changed: bool)
        ensures
            (final(self)@, changed) == apply_spec(
                old(self)@,
                match event {
                    FeedEvent::Fetched { id, .. } => id@,
                    FeedEvent::Failed { id, .. } => id@,
                },
                match event {
                    FeedEvent::Fetched { title, items, .. } => Ok((title@, items@.map_values(|p: ParsedItem| p@))),
                    FeedEvent::Failed { message, .. } => Err(message@),
                },
            ),
    {
        self.refreshing = if self.refreshing == 0 { 0 } else { self.refreshing - 1 };
        match event {
            FeedEvent::Fetched { id, title, items } => {
                let count = items.len();
                if !title.as_str().is_empty() {
                    self.store.set_title(id.as_str(), title.as_str());
                }
                let replaced = self.store.replace_items(id.as_str(), items);
                let keep_open = match &self.open_item {
                    Some(open) => self.store.item(open.as_str()).is_some(),
                    None => true,
                };
                if !keep_open {
                    self.open_item = None;
                }
                let mut status: Vec<char> = Vec::new();
                append(&mut status, "Updated ");
                let name = self.source_name(id.as_str());
                append(&mut status, name.as_str());
                append(&mut status, " (");
                let mut digits = String::new();
                push_decimal(&mut digits, count as u64);
                append(&mut status, digits.as_str());
                append(&mut status, ")");
                self.status = crate::textutil::string_of(status.as_slice());
                replaced
            },
            FeedEvent::Failed { id, message } => {
                let mut status: Vec<char> = Vec::new();
                let name = self.source_name(id.as_str());
                append(&mut status, name.as_str());
                append(&mut status, ": ");
                append(&mut status, message.as_str());
                self.status = crate::textutil::string_of(status.as_slice());
                false
            },
        }
    }

    fn source_name(&self, id: &str) -> (r: String)
        ensures
            r@ == source_name(self@.store, id@),
    {
        match self.store.source(id) {
            Some(source) => source.display_name(),
            None => id.to_owned(),
        }
    }
}

} // verus!
