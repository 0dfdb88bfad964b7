//! Feed subscriptions and the items last fetched from them.
//!
//! The store lives at `$XDG_DATA_HOME/ad.neko.mithka.gpui/subscriptions.json`.
//! It is not keyed by the TDLib database: subscriptions belong to this app,
//! not to a Telegram account. Reading and writing the file is the caller's
//! part; this module holds the rules of the store itself.

use vstd::prelude::*;
use crate::format::is_http_url_spec;
use crate::rss::parse::{is_http_url, ParsedItem, ParsedItemView, MAX_ITEMS};
use crate::seqs::{first_where, is_first, lemma_first_where_found, lemma_first_where_none};
use crate::rss::text::lemma_first_occ_past;
use crate::textutil::occurs_at;
use crate::textutil::{
    chars_of, find_occ, first_occ, join_relative, join_relative_spec, range_of, str_eq,
    string_of, trim, trim_seq, decimal, push_decimal,
};

verus! {

/// The store file, relative to the data directory.
pub const SUBSCRIPTIONS_FILE: &'static str = "ad.neko.mithka.gpui/subscriptions.json";

#[derive(Clone, Debug, PartialEq, Eq)]
pub struct Source {
    pub id: String,
    pub url: String,
    pub title: String,
}

/// [`Source`] with its strings as character sequences.
pub struct SourceView {
    pub id: Seq<char>,
    pub url: Seq<char>,
    pub title: Seq<char>,
}

impl View for Source {
    type V = SourceView;

    open spec fn view(&self) -> SourceView {
        SourceView { id: self.id@, url: self.url@, title: self.title@ }
    }
}

/// The trimmed title, or the URL when the title is blank.
pub open spec fn display_name_spec(s: SourceView) -> Seq<char> {
    if trim_seq(s.title).len() == 0 {
        s.url
    } else {
        trim_seq(s.title)
    }
}

impl Source {
    pub fn display_name(&self) -> (r: String)
        ensures
            r@ == display_name_spec(self@),
    {
        let title = trim(self.title.as_str());
        if title.as_str().is_empty() {
            self.url.clone()
        } else {
            title
        }
    }

    fn copy(&self) -> (r: Source)
        ensures
            r@ == self@,
    {
        Source { id: self.id.clone(), url: self.url.clone(), title: self.title.clone() }
    }
}

#[derive(Clone, Debug, PartialEq, Eq)]
pub struct Item {
    pub id: String,
    pub source_id: String,
    pub title: String,
    pub link: String,
    pub published: i64,
    pub body: String,
}

/// [`Item`] with its strings as character sequences.
pub struct ItemView {
    pub id: Seq<char>,
    pub source_id: Seq<char>,
    pub title: Seq<char>,
    pub link: Seq<char>,
    pub published: i64,
    pub body: Seq<char>,
}

impl View for Item {
    type V = ItemView;

    open spec fn view(&self) -> ItemView {
        ItemView {
            id: self.id@,
            source_id: self.source_id@,
            title: self.title@,
            link: self.link@,
            published: self.published,
            body: self.body@,
        }
    }
}

/// A parsed item stored under a source: its key becomes the item's id.
pub open spec fn from_parsed_spec(source_id: Seq<char>, p: ParsedItemView) -> ItemView {
    ItemView {
        id: p.key,
        source_id: source_id,
        title: p.title,
        link: p.link,
        published: p.published,
        body: p.body,
    }
}

impl Item {
    fn from_parsed(source_id: &str, item: ParsedItem) -> (r: Item)
        ensures
            r@ == from_parsed_spec(source_id@, item@),
    {
        Item {
            id: item.key,
            source_id: source_id.to_owned(),
            title: item.title,
            link: item.link,
            published: item.published,
            body: item.body,
        }
    }

    fn copy(&self) -> (r: Item)
        ensures
            r@ == self@,
    {
        Item {
            id: self.id.clone(),
            source_id: self.source_id.clone(),
            title: self.title.clone(),
            link: self.link.clone(),
            published: self.published,
            body: self.body.clone(),
        }
    }
}

pub open spec fn sources_view(v: Seq<Source>) -> Seq<SourceView> {
    v.map_values(|s: Source| s@)
}

pub open spec fn items_view(v: Seq<Item>) -> Seq<ItemView> {
    v.map_values(|i: Item| i@)
}

/// Subscribed sources in the order they were added, the last number handed
/// out for a source id, and the cached items of every source.
pub struct SubscriptionStore {
    next_id: u64,
    sources: Vec<Source>,
    items: Vec<Item>,
}

pub struct StoreView {
    pub next_id: u64,
    pub sources: Seq<SourceView>,
    pub items: Seq<ItemView>,
}

impl View for SubscriptionStore {
    type V = StoreView;

    closed spec fn view(&self) -> StoreView {
        StoreView {
            next_id: self.next_id,
            sources: sources_view(self.sources@),
            items: items_view(self.items@),
        }
    }
}

/// Matches a source by id.
pub open spec fn source_has_id(id: Seq<char>) -> spec_fn(SourceView) -> bool {
    |s: SourceView| s.id == id
}

/// Matches a source by URL.
pub open spec fn source_has_url(url: Seq<char>) -> spec_fn(SourceView) -> bool {
    |s: SourceView| s.url == url
}

/// Matches an item by id.
pub open spec fn item_has_id(id: Seq<char>) -> spec_fn(ItemView) -> bool {
    |i: ItemView| i.id == id
}

/// The host part of a feed URL, or the URL itself when it has none.
pub open spec fn provisional_title_spec(url: Seq<char>) -> Seq<char> {
    let rest = match first_occ(url, seq![':', '/', '/'], 0) {
        Some(i) => url.skip(i + 3),
        None => url,
    };
    let host = match first_occ(rest, seq!['/'], 0) {
        Some(j) => rest.take(j),
        None => rest,
    };
    if host.len() == 0 {
        url
    } else {
        host
    }
}

/// The title a source gets before its feed has been read: the URL's host.
pub fn provisional_title(url: &str) -> (r: String)
    ensures
        r@ == provisional_title_spec(url@),
{
    let s = chars_of(url);
    let sep = vec![':', '/', '/'];
    assert(sep@ =~= seq![':', '/', '/']);
    let rest = match find_occ(s.as_slice(), sep.as_slice(), 0) {
        Some(i) => {
            assert(i + 3 <= s.len());
            range_of(s.as_slice(), i + 3, s.len())
        },
        None => range_of(s.as_slice(), 0, s.len()),
    };
    assert(s@.subrange(0, s@.len() as int) =~= s@);
    let slash = vec!['/'];
    assert(slash@ =~= seq!['/']);
    let host = match find_occ(rest.as_slice(), slash.as_slice(), 0) {
        Some(j) => range_of(rest.as_slice(), 0, j),
        None => range_of(rest.as_slice(), 0, rest.len()),
    };
    assert(rest@.subrange(0, rest@.len() as int) =~= rest@);
    if host.len() == 0 {
        url.to_owned()
    } else {
        string_of(host.as_slice())
    }
}

/// Where the store lives under a data directory.
pub fn store_path_in(data_home: &str) -> (r: String)
    ensures
        r@ == join_relative_spec(data_home@, SUBSCRIPTIONS_FILE@),
{
    join_relative(data_home, SUBSCRIPTIONS_FILE)
}

/// Error for a blank URL.
pub const EMPTY_URL: &'static str = "Feed URL is empty.";

/// Error for a URL that is not `http` or `https`.
pub const NOT_HTTP: &'static str = "Feed URL must be http or https.";

/// `n + 1`, or `n` when that would overflow.
pub open spec fn saturating_next(n: u64) -> u64 {
    if n < u64::MAX {
        (n + 1) as u64
    } else {
        n
    }
}

/// The store after `add_source(url)`, and its result.
pub open spec fn add_source_spec(s: StoreView, url: Seq<char>) -> (StoreView, Result<Seq<char>, Seq<char>>) {
    let t = trim_seq(url);
    if t.len() == 0 {
        (s, Err(EMPTY_URL@))
    } else if !is_http_url_spec(t) {
        (s, Err(NOT_HTTP@))
    } else {
        match first_where(s.sources, source_has_url(t)) {
            Some(i) => (s, Ok(s.sources[i].id)),
            None => {
                let n = saturating_next(s.next_id);
                let id = seq!['f'] + decimal(n as nat);
                (
                    StoreView {
                        next_id: n,
                        sources: s.sources.push(SourceView { id, url: t, title: provisional_title_spec(t) }),
                        items: s.items,
                    },
                    Ok(id),
                )
            },
        }
    }
}

/// The store after `set_title(id, title)`, and its result.
pub open spec fn set_title_spec(s: StoreView, id: Seq<char>, title: Seq<char>) -> (StoreView, bool) {
    let t = trim_seq(title);
    if t.len() == 0 {
        (s, false)
    } else {
        match first_where(s.sources, source_has_id(id)) {
            None => (s, false),
            Some(i) => (
                StoreView {
                    sources: s.sources.update(i, SourceView { title: t, ..s.sources[i] }),
                    ..s
                },
                true,
            ),
        }
    }
}

pub open spec fn source_lacks_id(id: Seq<char>) -> spec_fn(SourceView) -> bool {
    |s: SourceView| s.id != id
}

pub open spec fn item_not_from(source_id: Seq<char>) -> spec_fn(ItemView) -> bool {
    |i: ItemView| i.source_id != source_id
}

/// The store after `remove_source(id)`, and its result: the source and its
/// items go; nothing changes when no source has that id.
pub open spec fn remove_source_spec(s: StoreView, id: Seq<char>) -> (StoreView, bool) {
    if first_where(s.sources, source_has_id(id)) is Some {
        (
            StoreView {
                next_id: s.next_id,
                sources: s.sources.filter(source_lacks_id(id)),
                items: s.items.filter(item_not_from(id)),
            },
            true,
        )
    } else {
        (s, false)
    }
}

/// The first [`MAX_ITEMS`] parsed items, as stored under `source_id`.
pub open spec fn stored_from(source_id: Seq<char>, parsed: Seq<ParsedItemView>) -> Seq<ItemView> {
    let kept = if parsed.len() > MAX_ITEMS { parsed.take(MAX_ITEMS as int) } else { parsed };
    kept.map_values(|p: ParsedItemView| from_parsed_spec(source_id, p))
}

/// The store after `replace_items(source_id, parsed)`, and its result.
pub open spec fn replace_items_spec(s: StoreView, source_id: Seq<char>, parsed: Seq<ParsedItemView>) -> (StoreView, bool) {
    if first_where(s.sources, source_has_id(source_id)) is Some {
        (
            StoreView {
                items: s.items.filter(item_not_from(source_id)) + stored_from(source_id, parsed),
                ..s
            },
            true,
        )
    } else {
        (s, false)
    }
}

impl SubscriptionStore {
    /// An empty store, as when no file exists yet.
    pub fn new() -> (s: Self)
        ensures
            s@ == (StoreView { next_id: 0, sources: Seq::empty(), items: Seq::empty() }),
    {
        let s = SubscriptionStore { next_id: 0, sources: Vec::new(), items: Vec::new() };
        assert(s@.sources =~= Seq::<SourceView>::empty());
        assert(s@.items =~= Seq::<ItemView>::empty());
        s
    }

    /// A store as its file holds it.
    pub fn from_parts(next_id: u64, sources: Vec<Source>, items: Vec<Item>) -> (s: Self)
        ensures
            s@ == (StoreView { next_id, sources: sources_view(sources@), items: items_view(items@) }),
    {
        SubscriptionStore { next_id, sources, items }
    }

    /// The last number used for a source id.
    pub fn next_id(&self) -> (r: u64)
        ensures
            r == self@.next_id,
    {
        self.next_id
    }

    pub fn sources(&self) -> (r: &[Source])
        ensures
            sources_view(r@) == self@.sources,
    {
        self.sources.as_slice()
    }

    /// Every cached item, in stored order.
    pub fn stored_items(&self) -> (r: &[Item])
        ensures
            items_view(r@) == self@.items,
    {
        self.items.as_slice()
    }

    fn source_index(&self, id: &str) -> (r: Option<usize>)
        ensures
            match r {
                Some(i) => first_where(self@.sources, source_has_id(id@)) == Some(i as int)
                    && i < self.sources.len(),
                None => first_where(self@.sources, source_has_id(id@)) is None,
            },
    {
        let ghost v = self@.sources;
        let ghost p = source_has_id(id@);
        let mut i: usize = 0;
        while i < self.sources.len()
            invariant
                i <= self.sources.len(),
                v == sources_view(self.sources@),
                p == source_has_id(id@),
                forall|j: int| 0 <= j < i ==> !p(#[trigger] v[j]),
            decreases self.sources.len() - i,
        {
            if str_eq(self.sources[i].id.as_str(), id) {
                proof {
                    assert(p(v[i as int]));
                    lemma_first_where_found(v, p, i as int);
                }
                return Some(i);
            }
            assert(!p(v[i as int]));
            i += 1;
        }
        proof {
            lemma_first_where_none(v, p);
        }
        None
    }

    fn url_index(&self, url: &str) -> (r: Option<usize>)
        ensures
            match r {
                Some(i) => first_where(self@.sources, source_has_url(url@)) == Some(i as int)
                    && i < self.sources.len(),
                None => first_where(self@.sources, source_has_url(url@)) is None,
            },
    {
        let ghost v = self@.sources;
        let ghost p = source_has_url(url@);
        let mut i: usize = 0;
        while i < self.sources.len()
            invariant
                i <= self.sources.len(),
                v == sources_view(self.sources@),
                p == source_has_url(url@),
                forall|j: int| 0 <= j < i ==> !p(#[trigger] v[j]),
            decreases self.sources.len() - i,
        {
            if str_eq(self.sources[i].url.as_str(), url) {
                proof {
                    assert(p(v[i as int]));
                    lemma_first_where_found(v, p, i as int);
                }
                return Some(i);
            }
            assert(!p(v[i as int]));
            i += 1;
        }
        proof {
            lemma_first_where_none(v, p);
        }
        None
    }

    /// The first source with this id.
    pub fn source(&self, id: &str) -> (r: Option<&Source>)
        ensures
            match first_where(self@.sources, source_has_id(id@)) {
                Some(i) => r is Some && r.unwrap()@ == self@.sources[i],
                None => r is None,
            },
    {
        match self.source_index(id) {
            Some(i) => Some(&self.sources[i]),
            None => None,
        }
    }

    /// The first cached item with this id.
    pub fn item(&self, id: &str) -> (r: Option<&Item>)
        ensures
            match first_where(self@.items, item_has_id(id@)) {
                Some(i) => r is Some && r.unwrap()@ == self@.items[i],
                None => r is None,
            },
    {
        let ghost v = self@.items;
        let ghost p = item_has_id(id@);
        let mut i: usize = 0;
        while i < self.items.len()
            invariant
                i <= self.items.len(),
                v == items_view(self.items@),
                p == item_has_id(id@),
                forall|j: int| 0 <= j < i ==> !p(#[trigger] v[j]),
            decreases self.items.len() - i,
        {
            if str_eq(self.items[i].id.as_str(), id) {
                proof {
                    assert(p(v[i as int]));
                    lemma_first_where_found(v, p, i as int);
                }
                return Some(&self.items[i]);
            }
            assert(!p(v[i as int]));
            i += 1;
        }
        proof {
            lemma_first_where_none(v, p);
        }
        None
    }

    /// Adds `url`, or returns the id already stored for that exact URL.
    pub fn add_source(&mut self, url: &str) -> (r: Result<String, String>)
        ensures
            (final(self)@, match r { Ok(id) => Ok(id@), Err(m) => Err(m@) })
                == add_source_spec(old(self)@, url@),
    {
        let url = trim(url);
        if url.as_str().is_empty() {
            return Err(EMPTY_URL.to_owned());
        }
        if !is_http_url(url.as_str()) {
            return Err(NOT_HTTP.to_owned());
        }
        if let Some(i) = self.url_index(url.as_str()) {
            return Ok(self.sources[i].id.clone());
        }
        self.next_id = if self.next_id < u64::MAX { self.next_id + 1 } else { self.next_id };
        let mut id = String::new();
        crate::textutil::push_char(&mut id, 'f');
        push_decimal(&mut id, self.next_id);
        let title = provisional_title(url.as_str());
        let ghost before = self.sources@;
        self.sources.push(Source { id: id.clone(), url, title });
        assert(sources_view(self.sources@) =~= sources_view(before).push(self.sources@.last()@));
        Ok(id)
    }

    /// Gives a source the trimmed title; a blank title or an unknown id
    /// changes nothing.
    pub fn set_title(&mut self, id: &str, title: &str) -> (r: bool)
        ensures
            (final(self)@, r) == set_title_spec(old(self)@, id@, title@),
    {
        let title = trim(title);
        if title.as_str().is_empty() {
            return false;
        }
        match self.source_index(id) {
            None => false,
            Some(i) => {
                let updated = Source {
                    id: self.sources[i].id.clone(),
                    url: self.sources[i].url.clone(),
                    title,
                };
                let ghost before = self.sources@;
                self.sources.set(i, updated);
                assert(sources_view(self.sources@) =~= sources_view(before).update(
                    i as int,
                    updated@,
                ));
                true
            },
        }
    }

    /// Items of every source but `source_id`, in stored order.
    fn drop_items_of(&mut self, source_id: &str)
        ensures
            final(self)@ == (StoreView { items: old(self)@.items.filter(item_not_from(source_id@)), ..old(self)@ }),
    {
        let ghost v = old(self)@.items;
        let ghost p = item_not_from(source_id@);
        let mut kept: Vec<Item> = Vec::new();
        let mut i: usize = 0;
        proof {
            crate::seqs::lemma_filter_empty(v, p);
        }
        while i < self.items.len()
            invariant
                i <= self.items.len(),
                v == items_view(self.items@),
                p == item_not_from(source_id@),
                items_view(kept@) == v.take(i as int).filter(p),
            decreases self.items.len() - i,
        {
            proof {
                crate::seqs::lemma_filter_take_step(v, i as int, p);
            }
            if !str_eq(self.items[i].source_id.as_str(), source_id) {
                let ghost before = kept@;
                kept.push(self.items[i].copy());
                assert(items_view(kept@) =~= items_view(before).push(v[i as int]));
            }
            i += 1;
        }
        assert(v.take(v.len() as int) =~= v);
        self.items = kept;
    }

    /// Removes a source and its cached items.
    pub fn remove_source(&mut self, id: &str) -> (r: bool)
        ensures
            (final(self)@, r) == remove_source_spec(old(self)@, id@),
    {
        let ghost v = old(self)@.sources;
        let ghost p = source_lacks_id(id@);
        let mut kept: Vec<Source> = Vec::new();
        let mut found = false;
        let mut i: usize = 0;
        proof {
            crate::seqs::lemma_filter_empty(v, p);
        }
        while i < self.sources.len()
            invariant
                i <= self.sources.len(),
                v == sources_view(self.sources@),
                p == source_lacks_id(id@),
                sources_view(kept@) == v.take(i as int).filter(p),
                found == exists|j: int| 0 <= j < i && (#[trigger] v[j]).id == id@,
                !found ==> sources_view(kept@) == v.take(i as int),
            decreases self.sources.len() - i,
        {
            proof {
                crate::seqs::lemma_filter_take_step(v, i as int, p);
            }
            let ghost before = kept@;
            if !str_eq(self.sources[i].id.as_str(), id) {
                kept.push(self.sources[i].copy());
                assert(sources_view(kept@) =~= sources_view(before).push(v[i as int]));
            } else {
                found = true;
                assert(v[i as int].id == id@);
            }
            assert(v.take(i + 1) =~= v.take(i as int).push(v[i as int]));
            i += 1;
        }
        assert(v.take(v.len() as int) =~= v);
        proof {
            if found {
                let j = choose|j: int| 0 <= j < v.len() && (#[trigger] v[j]).id == id@;
                assert(source_has_id(id@)(v[j]));
                if first_where(v, source_has_id(id@)) is None {
                    assert(exists|k: int| is_first(v, source_has_id(id@), k)) by {
                        crate::seqs::lemma_first_exists(v, source_has_id(id@), j);
                    }
                }
            } else {
                assert forall|j: int| 0 <= j < v.len() implies !source_has_id(id@)(#[trigger] v[j]) by {
                    assert(v[j].id != id@);
                }
                lemma_first_where_none(v, source_has_id(id@));
            }
        }
        if !found {
            return false;
        }
        self.sources = kept;
        self.drop_items_of(id);
        true
    }

    /// Replaces the cached items of one source with the first
    /// [`MAX_ITEMS`] of `items`. An unknown source changes nothing.
    pub fn replace_items(&mut self, source_id: &str, items: Vec<ParsedItem>) -> (r: bool)
        ensures
            (final(self)@, r) == replace_items_spec(
                old(self)@,
                source_id@,
                items@.map_values(|p: ParsedItem| p@),
            ),
    {
        if self.source_index(source_id).is_none() {
            return false;
        }
        self.drop_items_of(source_id);
        let ghost base = self@.items;
        let ghost parsed = items@.map_values(|p: ParsedItem| p@);
        let n = if items.len() > MAX_ITEMS { MAX_ITEMS } else { items.len() };
        let mut i: usize = 0;
        while i < n
            invariant
                i <= n <= items.len(),
                n == (if items.len() > MAX_ITEMS { MAX_ITEMS } else { items.len() }),
                parsed == items@.map_values(|p: ParsedItem| p@),
                items_view(self.items@) == base + parsed.take(i as int).map_values(
                    |p: ParsedItemView| from_parsed_spec(source_id@, p),
                ),
                self@.sources == old(self)@.sources,
                self@.next_id == old(self)@.next_id,
                base == old(self)@.items.filter(item_not_from(source_id@)),
            decreases n - i,
        {
            let p = &items[i];
            let copy = ParsedItem {
                key: p.key.clone(),
                title: p.title.clone(),
                link: p.link.clone(),
                published: p.published,
                body: p.body.clone(),
            };
            assert(copy@ == parsed[i as int]);
            assert(parsed.take(i + 1) =~= parsed.take(i as int).push(parsed[i as int]));
            let ghost before = self.items@;
            self.items.push(Item::from_parsed(source_id, copy));
            assert(items_view(self.items@) =~= items_view(before).push(
                from_parsed_spec(source_id@, parsed[i as int]),
            ));
            assert(items_view(self.items@) =~= base + parsed.take(i + 1).map_values(
                |p: ParsedItemView| from_parsed_spec(source_id@, p),
            ));
            i += 1;
        }
        assert(parsed.take(n as int) =~= (if parsed.len() > MAX_ITEMS {
            parsed.take(MAX_ITEMS as int)
        } else {
            parsed
        }));
        true
    }
}

/// `String`'s order: characters compared in turn by code point, and a
/// proper prefix first. UTF-8 keeps code-point order, so this is the order
/// of the bytes as well.
pub open spec fn text_lt(a: Seq<char>, b: Seq<char>) -> bool
    decreases a.len(),
{
    if a.len() == 0 {
        b.len() > 0
    } else if b.len() == 0 {
        false
    } else if a[0] != b[0] {
        (a[0] as u32) < (b[0] as u32)
    } else {
        text_lt(a.drop_first(), b.drop_first())
    }
}

/// `a` is listed before `b`: it is newer, or as new with a smaller title.
pub open spec fn listed_before(a: ItemView, b: ItemView) -> bool {
    a.published > b.published || (a.published == b.published && text_lt(a.title, b.title))
}

/// `x` placed before the first element of `s` that it is listed before.
pub open spec fn insert_listed(s: Seq<ItemView>, x: ItemView) -> Seq<ItemView>
    decreases s.len(),
{
    if s.len() == 0 {
        seq![x]
    } else if listed_before(x, s[0]) {
        seq![x] + s
    } else {
        seq![s[0]] + insert_listed(s.drop_first(), x)
    }
}

/// The stable sort of `s` into listing order, one element at a time.
pub open spec fn sort_listed(s: Seq<ItemView>) -> Seq<ItemView>
    decreases s.len(),
{
    if s.len() == 0 {
        s
    } else {
        insert_listed(sort_listed(s.drop_last()), s.last())
    }
}

/// Items of one source, or of all of them.
pub open spec fn item_in(selection: Option<Seq<char>>) -> spec_fn(ItemView) -> bool {
    |i: ItemView| match selection {
        Some(id) => i.source_id == id,
        None => true,
    }
}

pub open spec fn selection_view(source_id: Option<&str>) -> Option<Seq<char>> {
    match source_id {
        Some(id) => Some(id@),
        None => None,
    }
}

/// What `items` lists: the selected items, newest first, ties by title,
/// equal ones in stored order.
pub open spec fn listing(s: StoreView, selection: Option<Seq<char>>) -> Seq<ItemView> {
    sort_listed(s.items.filter(item_in(selection)))
}

/// Where `insert_listed` puts `x`.
pub open spec fn insert_pos(s: Seq<ItemView>, x: ItemView) -> int
    decreases s.len(),
{
    if s.len() == 0 {
        0
    } else if listed_before(x, s[0]) {
        0
    } else {
        1 + insert_pos(s.drop_first(), x)
    }
}

proof fn lemma_insert_pos(s: Seq<ItemView>, x: ItemView)
    ensures
        0 <= insert_pos(s, x) <= s.len(),
        insert_listed(s, x) == s.insert(insert_pos(s, x), x),
        forall|k: int| 0 <= k < insert_pos(s, x) ==> !listed_before(x, #[trigger] s[k]),
        insert_pos(s, x) < s.len() ==> listed_before(x, s[insert_pos(s, x)]),
    decreases s.len(),
{
    if s.len() == 0 {
        assert(insert_listed(s, x) =~= s.insert(0, x));
    } else if listed_before(x, s[0]) {
        assert(insert_listed(s, x) =~= s.insert(0, x));
    } else {
        let t = s.drop_first();
        lemma_insert_pos(t, x);
        let p = insert_pos(t, x);
        assert(insert_listed(s, x) =~= s.insert(p + 1, x));
        assert forall|k: int| 0 <= k < p + 1 implies !listed_before(x, #[trigger] s[k]) by {
            if k > 0 {
                assert(s[k] == t[k - 1]);
            }
        }
        if p < t.len() {
            assert(s[p + 1] == t[p]);
        }
    }
}

/// The first index at or after `from` whose item `x` is listed before, in
/// the same terms as `insert_pos`.
proof fn lemma_insert_pos_is_first(s: Seq<ItemView>, x: ItemView, j: int)
    requires
        0 <= j <= s.len(),
        forall|k: int| 0 <= k < j ==> !listed_before(x, #[trigger] s[k]),
        j == s.len() || listed_before(x, s[j]),
    ensures
        insert_pos(s, x) == j,
{
    lemma_insert_pos(s, x);
    let p = insert_pos(s, x);
    if p < j {
        assert(!listed_before(x, s[p]));
    } else if p > j {
        assert(!listed_before(x, s[j]));
    }
}

proof fn lemma_text_lt_skip(a: Seq<char>, b: Seq<char>, i: int)
    requires
        0 <= i <= a.len(),
        i <= b.len(),
        forall|j: int| 0 <= j < i ==> a[j] == b[j],
    ensures
        text_lt(a, b) == text_lt(a.skip(i), b.skip(i)),
    decreases i,
{
    if i == 0 {
        assert(a.skip(0) =~= a);
        assert(b.skip(0) =~= b);
    } else {
        assert(a[0] == b[0]);
        lemma_text_lt_skip(a.drop_first(), b.drop_first(), i - 1);
        assert(a.drop_first().skip(i - 1) =~= a.skip(i));
        assert(b.drop_first().skip(i - 1) =~= b.skip(i));
    }
}

/// `text_lt`, computed.
pub(crate) fn text_before_chars(a: &[char], b: &[char]) -> (r: bool)
    ensures
        r == text_lt(a@, b@),
{
    let mut i: usize = 0;
    while i < a.len() && i < b.len() && a[i] == b[i]
        invariant
            i <= a.len(),
            i <= b.len(),
            forall|j: int| 0 <= j < i ==> a@[j] == b@[j],
        decreases a.len() - i,
    {
        i += 1;
    }
    proof {
        lemma_text_lt_skip(a@, b@, i as int);
    }
    if i == a.len() {
        i < b.len()
    } else if i == b.len() {
        false
    } else {
        assert(a@.skip(i as int)[0] == a@[i as int]);
        assert(b@.skip(i as int)[0] == b@[i as int]);
        (a[i] as u32) < (b[i] as u32)
    }
}

/// `listed_before`, computed.
fn is_listed_before(a: &Item, b: &Item) -> (r: bool)
    ensures
        r == listed_before(a@, b@),
{
    if a.published != b.published {
        return a.published > b.published;
    }
    let at = chars_of(a.title.as_str());
    let bt = chars_of(b.title.as_str());
    text_before_chars(at.as_slice(), bt.as_slice())
}

impl SubscriptionStore {
    /// The cached items of one source, or of every source with `None`:
    /// newest first, then by title.
    pub fn items(&self, source_id: Option<&str>) -> (r: Vec<Item>)
        ensures
            items_view(r@) == listing(self@, selection_view(source_id)),
    {
        let ghost v = self@.items;
        let ghost p = item_in(selection_view(source_id));
        let mut out: Vec<Item> = Vec::new();
        let mut i: usize = 0;
        proof {
            crate::seqs::lemma_filter_empty(v, p);
            assert(items_view(out@) =~= Seq::<ItemView>::empty());
        }
        while i < self.items.len()
            invariant
                i <= self.items.len(),
                v == items_view(self.items@),
                p == item_in(selection_view(source_id)),
                items_view(out@) == sort_listed(v.take(i as int).filter(p)),
            decreases self.items.len() - i,
        {
            proof {
                crate::seqs::lemma_filter_take_step(v, i as int, p);
            }
            let selected = match source_id {
                Some(id) => str_eq(self.items[i].source_id.as_str(), id),
                None => true,
            };
            if selected {
                let x = self.items[i].copy();
                let ghost sorted = items_view(out@);
                let mut j: usize = 0;
                while j < out.len() && !is_listed_before(&x, &out[j])
                    invariant
                        j <= out.len(),
                        sorted == items_view(out@),
                        forall|k: int| 0 <= k < j ==> !listed_before(x@, #[trigger] sorted[k]),
                    decreases out.len() - j,
                {
                    j += 1;
                }
                proof {
                    lemma_insert_pos_is_first(sorted, x@, j as int);
                    lemma_insert_pos(sorted, x@);
                    let f = v.take(i as int).filter(p);
                    assert(f.push(v[i as int]).drop_last() =~= f);
                }
                let ghost before = out@;
                out.insert(j, x);
                assert(items_view(out@) =~= sorted.insert(j as int, x@));
            }
            i += 1;
        }
        assert(v.take(v.len() as int) =~= v);
        out
    }
}

/// `a` may stand before `b` in the listing: newer, or as new with a title
/// that is not greater.
pub open spec fn in_listing_order(a: ItemView, b: ItemView) -> bool {
    a.published > b.published || (a.published == b.published && !text_lt(b.title, a.title))
}

pub open spec fn listing_ordered(s: Seq<ItemView>) -> bool {
    forall|i: int, j: int| 0 <= i < j < s.len() ==> in_listing_order(#[trigger] s[i], #[trigger] s[j])
}

proof fn lemma_text_lt_asym(a: Seq<char>, b: Seq<char>)
    ensures
        !(text_lt(a, b) && text_lt(b, a)),
    decreases a.len(),
{
    if a.len() > 0 && b.len() > 0 && a[0] == b[0] {
        lemma_text_lt_asym(a.drop_first(), b.drop_first());
    }
}

proof fn lemma_text_lt_trans(a: Seq<char>, b: Seq<char>, c: Seq<char>)
    requires
        text_lt(a, b),
        text_lt(b, c),
    ensures
        text_lt(a, c),
    decreases a.len(),
{
    if a.len() > 0 && b.len() > 0 && c.len() > 0 && a[0] == b[0] && b[0] == c[0] {
        lemma_text_lt_trans(a.drop_first(), b.drop_first(), c.drop_first());
    }
}

proof fn lemma_listed_before_order(a: ItemView, b: ItemView, c: ItemView)
    ensures
        !(listed_before(a, b) && listed_before(b, a)),
        listed_before(a, b) && listed_before(b, c) ==> listed_before(a, c),
{
    lemma_text_lt_asym(a.title, b.title);
    if listed_before(a, b) && listed_before(b, c) && a.published == b.published
        && b.published == c.published {
        lemma_text_lt_trans(a.title, b.title, c.title);
    }
}

proof fn lemma_insert_listed_ordered(s: Seq<ItemView>, x: ItemView)
    requires
        forall|i: int, j: int| 0 <= i < j < s.len() ==> !listed_before(#[trigger] s[j], #[trigger] s[i]),
    ensures
        forall|i: int, j: int|
            0 <= i < j < insert_listed(s, x).len() ==> !listed_before(
                #[trigger] insert_listed(s, x)[j],
                #[trigger] insert_listed(s, x)[i],
            ),
        insert_listed(s, x).to_multiset() == s.to_multiset().insert(x),
{
    lemma_insert_pos(s, x);
    let p = insert_pos(s, x);
    let r = insert_listed(s, x);
    assert forall|i: int, j: int| 0 <= i < j < r.len() implies !listed_before(
        #[trigger] r[j],
        #[trigger] r[i],
    ) by {
        if i < p && j < p {
            assert(r[i] == s[i] && r[j] == s[j]);
        } else if i < p && j == p {
            assert(r[i] == s[i] && r[j] == x);
        } else if i < p {
            assert(r[i] == s[i] && r[j] == s[j - 1]);
        } else if i == p {
            assert(r[i] == x && r[j] == s[j - 1]);
            lemma_listed_before_order(s[p], x, s[p]);
            if j - 1 > p {
                lemma_listed_before_order(s[j - 1], x, s[p]);
            }
        } else {
            assert(r[i] == s[i - 1] && r[j] == s[j - 1]);
        }
    }
    broadcast use vstd::seq_lib::group_to_multiset_ensures;
    assert(r.remove(p) =~= s);
    assert(r[p] == x);
    assert(r.to_multiset().count(x) > 0);
    assert(r.to_multiset() =~= s.to_multiset().insert(x));
}

proof fn lemma_sort_listed(s: Seq<ItemView>)
    ensures
        forall|i: int, j: int|
            0 <= i < j < sort_listed(s).len() ==> !listed_before(
                #[trigger] sort_listed(s)[j],
                #[trigger] sort_listed(s)[i],
            ),
        sort_listed(s).to_multiset() == s.to_multiset(),
    decreases s.len(),
{
    if s.len() > 0 {
        lemma_sort_listed(s.drop_last());
        lemma_insert_listed_ordered(sort_listed(s.drop_last()), s.last());
        broadcast use vstd::seq_lib::group_to_multiset_ensures;
        assert(s.drop_last().push(s.last()) =~= s);
    }
}

/// `items` lists newest first, and among items equally new the smaller
/// title first; it holds every selected item, each as often as it is
/// stored.
pub proof fn law_items_newest_first(s: StoreView, selection: Option<Seq<char>>)
    ensures
        listing_ordered(listing(s, selection)),
        listing(s, selection).to_multiset() == s.items.filter(item_in(selection)).to_multiset(),
{
    let f = s.items.filter(item_in(selection));
    lemma_sort_listed(f);
    let l = sort_listed(f);
    assert forall|i: int, j: int| 0 <= i < j < l.len() implies in_listing_order(#[trigger] l[i], #[trigger] l[j]) by {
        assert(!listed_before(l[j], l[i]));
    }
}

/// Adding a URL a second time returns the id the first call returned and
/// changes nothing.
pub proof fn law_add_source_again(s: StoreView, url: Seq<char>)
    requires
        add_source_spec(s, url).1 is Ok,
    ensures
        add_source_spec(add_source_spec(s, url).0, url) == (add_source_spec(s, url).0, add_source_spec(s, url).1),
{
    let t = trim_seq(url);
    let s1 = add_source_spec(s, url).0;
    match first_where(s.sources, source_has_url(t)) {
        Some(i) => {},
        None => {
            let k = s.sources.len() as int;
            assert(s1.sources[k].url == t);
            assert forall|j: int| 0 <= j < k implies !source_has_url(t)(#[trigger] s1.sources[j]) by {
                assert(s1.sources[j] == s.sources[j]);
                if source_has_url(t)(s.sources[j]) {
                    crate::seqs::lemma_first_exists(s.sources, source_has_url(t), j);
                }
            }
            assert(is_first(s1.sources, source_has_url(t), k));
            lemma_first_where_found(s1.sources, source_has_url(t), k);
        },
    }
}

/// After `remove_source(id)` no source has that id, and when one did, no
/// cached item belongs to it either.
pub proof fn law_removed_source_is_gone(s: StoreView, id: Seq<char>)
    ensures
        first_where(remove_source_spec(s, id).0.sources, source_has_id(id)) is None,
        remove_source_spec(s, id).1 ==> forall|k: int|
            0 <= k < remove_source_spec(s, id).0.items.len()
                ==> (#[trigger] remove_source_spec(s, id).0.items[k]).source_id != id,
{
    broadcast use Seq::lemma_filter_pred;
    let s1 = remove_source_spec(s, id).0;
    if remove_source_spec(s, id).1 {
        assert forall|j: int| 0 <= j < s1.sources.len() implies !source_has_id(id)(#[trigger] s1.sources[j]) by {
            assert(source_lacks_id(id)(s.sources.filter(source_lacks_id(id))[j]));
        }
        assert forall|k: int| 0 <= k < s1.items.len() implies (#[trigger] s1.items[k]).source_id != id by {
            assert(item_not_from(id)(s.items.filter(item_not_from(id))[k]));
        }
    }
    lemma_first_where_none_or(s1.sources, source_has_id(id));
}

proof fn lemma_first_where_none_or(v: Seq<SourceView>, p: spec_fn(SourceView) -> bool)
    ensures
        (forall|j: int| 0 <= j < v.len() ==> !p(#[trigger] v[j])) ==> first_where(v, p) is None,
{
    if forall|j: int| 0 <= j < v.len() ==> !p(#[trigger] v[j]) {
        lemma_first_where_none(v, p);
    }
}

/// Replacing the items of a known source keeps every other source's items,
/// in order, and then stores the first [`MAX_ITEMS`] parsed items in their
/// order under that source: stored item `k` has the parsed item's key as
/// its id, the source's id, and the parsed title, link, date and body.
pub proof fn law_replaced_items_are_the_parsed(s: StoreView, source_id: Seq<char>, parsed: Seq<ParsedItemView>, k: int)
    requires
        first_where(s.sources, source_has_id(source_id)) is Some,
        0 <= k < parsed.len(),
        k < MAX_ITEMS,
    ensures
        ({
            let after = replace_items_spec(s, source_id, parsed);
            let others = s.items.filter(item_not_from(source_id));
            let stored = after.0.items[others.len() + k];
            &&& after.1
            &&& after.0.items.len() == others.len() + (if parsed.len() > MAX_ITEMS { MAX_ITEMS as int } else { parsed.len() as int })
            &&& after.0.items.take(others.len() as int) == others
            &&& stored.id == parsed[k].key
            &&& stored.source_id == source_id
            &&& stored.title == parsed[k].title
            &&& stored.link == parsed[k].link
            &&& stored.published == parsed[k].published
            &&& stored.body == parsed[k].body
        }),
{
    let others = s.items.filter(item_not_from(source_id));
    let after = replace_items_spec(s, source_id, parsed);
    let st = stored_from(source_id, parsed);
    assert(after.0.items == others + st);
    assert(after.0.items[others.len() + k] == st[k]);
    assert(after.0.items.take(others.len() as int) =~= others);
}

/// Renaming the first source with `id` to a title that is not blank gives
/// it the trimmed title and keeps its id and URL; every other source, the
/// items and the id counter stay as they were. A blank title or an
/// unknown id changes nothing and is refused.
pub proof fn law_set_title(s: StoreView, id: Seq<char>, title: Seq<char>)
    ensures
        ({
            let after = set_title_spec(s, id, title);
            match first_where(s.sources, source_has_id(id)) {
                Some(i) => if trim_seq(title).len() > 0 {
                    &&& after.1
                    &&& after.0.sources.len() == s.sources.len()
                    &&& after.0.sources[i].title == trim_seq(title)
                    &&& after.0.sources[i].id == id
                    &&& after.0.sources[i].url == s.sources[i].url
                    &&& forall|j: int| 0 <= j < s.sources.len() && j != i ==> after.0.sources[j] == #[trigger] s.sources[j]
                    &&& after.0.items == s.items
                    &&& after.0.next_id == s.next_id
                } else {
                    after == (s, false)
                },
                None => after == (s, false),
            }
        }),
{
    if let Some(i) = first_where(s.sources, source_has_id(id)) {
        let k = choose|k: int| is_first(s.sources, source_has_id(id), k);
        assert(is_first(s.sources, source_has_id(id), k));
        lemma_first_where_found(s.sources, source_has_id(id), k);
    }
}

/// Adding an http(s) URL no source has yet appends one source with the
/// trimmed URL, its provisional title and the returned id, which is `f`
/// and the next counter value; the other sources and the items stay.
pub proof fn law_add_new_source(s: StoreView, url: Seq<char>)
    requires
        is_http_url_spec(trim_seq(url)),
        first_where(s.sources, source_has_url(trim_seq(url))) is None,
    ensures
        ({
            let after = add_source_spec(s, url);
            &&& after.1 is Ok
            &&& after.0.sources.len() == s.sources.len() + 1
            &&& after.0.sources.take(s.sources.len() as int) == s.sources
            &&& after.0.sources.last().url == trim_seq(url)
            &&& after.0.sources.last().id == after.1->Ok_0
            &&& after.0.sources.last().title == provisional_title_spec(trim_seq(url))
            &&& after.1->Ok_0[0] == 'f'
            &&& after.0.items == s.items
        }),
{
    assert(s.sources.push(add_source_spec(s, url).0.sources.last()).take(s.sources.len() as int) =~= s.sources);
}

/// The provisional title of `scheme://host/path` is the host, for a scheme
/// without `:` and a host without `/`.
pub proof fn law_provisional_title_is_host(scheme: Seq<char>, host: Seq<char>, path: Seq<char>)
    requires
        host.len() > 0,
        forall|i: int| 0 <= i < scheme.len() ==> scheme[i] != ':',
        forall|i: int| 0 <= i < host.len() ==> host[i] != '/',
    ensures
        provisional_title_spec(scheme + seq![':', '/', '/'] + host + seq!['/'] + path) == host,
{
    let sep = seq![':', '/', '/'];
    let url = scheme + sep + host + seq!['/'] + path;
    let n = scheme.len() as int;
    assert forall|i: int| 0 <= i < n implies url[i] != sep[0] by {
        assert(url[i] == scheme[i]);
    }
    lemma_first_occ_past(url, sep, 0, n);
    assert(occurs_at(url, sep, n)) by {
        assert(url.subrange(n, n + 3) =~= sep);
    }
    assert(first_occ(url, sep, 0) == Some(n));
    let rest = url.skip(n + 3);
    assert(rest =~= host + seq!['/'] + path);
    let m = host.len() as int;
    assert forall|i: int| 0 <= i < m implies rest[i] != seq!['/'][0] by {
        assert(rest[i] == host[i]);
    }
    lemma_first_occ_past(rest, seq!['/'], 0, m);
    assert(occurs_at(rest, seq!['/'], m)) by {
        assert(rest.subrange(m, m + 1) =~= seq!['/']);
    }
    assert(first_occ(rest, seq!['/'], 0) == Some(m));
    assert(rest.take(m) =~= host);
}

} // verus!
