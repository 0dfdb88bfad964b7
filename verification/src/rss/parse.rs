//! RSS, Atom, and JSON Feed documents.
//!
//! `feed-rs` reads the document; what this client keeps of it (titles,
//! links, dates, plain-text bodies, stable keys) is decided here.

use vstd::prelude::*;
use crate::format::is_http_url_spec;
use crate::rss::guard::{feed_bytes_safe, feed_bytes_safe_check};
use crate::rss::text::{html_to_text, html_to_text_spec};
use crate::textutil::{chars_of, push_char, str_eq, string_of, trim, trim_seq};
use vstd::utf8::encode_utf8;
use feed_rs::model::Text;
use feed_rs::parser::Builder;
use chrono::DateTime;

verus! {

/// At most this many items are kept per feed.
pub const MAX_ITEMS: usize = 40;

/// Longest plain-text body, in characters, before it is cut.
pub const MAX_BODY: usize = 12_000;

#[derive(Clone, Debug, PartialEq, Eq)]
pub struct ParsedFeed {
    pub title: String,
    pub items: Vec<ParsedItem>,
}

#[derive(Clone, Debug, PartialEq, Eq)]
pub struct ParsedItem {
    pub key: String,
    pub title: String,
    pub link: String,
    pub published: i64,
    pub body: String,
}

/// A link of a feed entry, as `feed-rs` read it.
#[derive(Clone, Debug, PartialEq, Eq)]
pub struct FeedLink {
    pub href: String,
    pub rel: Option<String>,
}

/// A feed entry, as `feed-rs` read it: text fields hold the text's content,
/// dates are Unix seconds, and `content` holds the content element's body.
#[derive(Clone, Debug, PartialEq, Eq)]
pub struct FeedEntry {
    pub id: String,
    pub title: Option<String>,
    pub links: Vec<FeedLink>,
    pub published: Option<i64>,
    pub updated: Option<i64>,
    pub content: Option<Option<String>>,
    pub summary: Option<String>,
}

/// A feed document, as `feed-rs` read it.
#[derive(Clone, Debug, PartialEq, Eq)]
pub struct FeedDocument {
    pub title: Option<String>,
    pub entries: Vec<FeedEntry>,
}

/// What `feed-rs`'s parser, with its default settings except that an entry
/// without an id keeps an empty id, makes of these bytes: the document, or
/// the text of its error.
pub uninterp spec fn feed_rs_parse(bytes: Seq<u8>) -> Result<FeedDocument, Seq<char>>;

/// The id an entry gets in place of a missing one, whatever its links and
/// title: none, leaving it for the library to fill.
pub(crate) fn unset_id<L, T>(links: &[L], title: &Option<T>, base: Option<&str>) -> (r: String)
    ensures
        r@.len() == 0,
{
    String::new()
}

/// `feed_rs::parser::Builder` with its defaults and an id generator that
/// leaves a missing id empty, parsing the bytes; its model copied field for
/// field into [`FeedDocument`] (dates as Unix seconds, texts as their
/// content). The result is named, not described: the parser's grammar is
/// feed-rs's own. It depends on the bytes alone: the id generator is the only
/// part of the parser that draws random values, and it is replaced here.
/// The bytes are ones on which feed-rs does not panic: its Media RSS time
/// parsing unwraps number conversions (see [`feed_bytes_safe`]).
#[verifier::external_body]
fn parse_feed_bytes(bytes: &[u8]) -> (r: Result<FeedDocument, String>)
    requires
        feed_bytes_safe(bytes@),
    ensures
        match (r, feed_rs_parse(bytes@)) {
            (Ok(d), Ok(named)) => d == named,
            (Err(m), Err(named)) => m@ == named,
            _ => false,
        },
{
    let text = |t: Text| t.content;
    Builder::new().id_generator(unset_id).build().parse(bytes).map_err(|e| format!("{e}")).map(|feed| FeedDocument {
        title: feed.title.map(text),
        entries: feed.entries.into_iter().map(|e| FeedEntry {
            id: e.id,
            title: e.title.map(text),
            links: e.links.into_iter().map(|l| FeedLink { href: l.href, rel: l.rel }).collect(),
            published: e.published.as_ref().map(DateTime::timestamp),
            updated: e.updated.as_ref().map(DateTime::timestamp),
            content: e.content.map(|c| c.body),
            summary: e.summary.map(text)
        }).collect()
    })
}

/// The id `feed-rs` makes for an entry from its first link and its title.
pub uninterp spec fn feed_link_id(href: Seq<char>, title: Option<Seq<char>>) -> Seq<char>;

/// `feed_rs::parser::generate_id_from_link_and_title`, which `feed-rs` uses
/// for an entry without an id that has a link: a hash of the link's `href`
/// and the title's content, and of nothing else. The text is named.
#[verifier::external_body]
fn link_title_id(href: &str, title: Option<&str>) -> (r: String)
    ensures
        r@ == feed_link_id(href@, match title { Some(t) => Some(t@), None => None }),
{
    let link = feed_rs::model::Link {
        href: href.to_string(),
        rel: None,
        media_type: None,
        href_lang: None,
        title: None,
        length: None,
    };
    let title = title.map(|t| feed_rs::model::Text {
        content_type: mediatype::MediaTypeBuf::new(mediatype::names::TEXT, mediatype::names::PLAIN),
        src: None,
        content: t.to_string(),
    });
    feed_rs::parser::generate_id_from_link_and_title(&link, &title)
}

/// `feed_rs::parser::generate_id` with no link and no base URI, which is the
/// case where `feed-rs` gives an entry a fresh random UUID (`Uuid::new_v4`,
/// hyphenated). Only its length holds of every outcome.
#[verifier::external_body]
fn random_entry_id() -> (r: String)
    ensures
        r@.len() == 36,
{
    feed_rs::parser::generate_id(&[], &None, None)
}

pub open spec fn opt_str_view(t: Option<String>) -> Option<Seq<char>> {
    match t {
        Some(x) => Some(x@),
        None => None,
    }
}

/// The entry `f` is `e` with its id filled as `feed-rs` fills a missing
/// one: kept when there is one, else made from the first link and the
/// title, else a random UUID.
pub open spec fn entry_id_filled(e: FeedEntry, f: FeedEntry) -> bool {
    &&& f.title == e.title && f.links == e.links && f.published == e.published
    &&& f.updated == e.updated && f.content == e.content && f.summary == e.summary
    &&& if e.id@.len() > 0 {
        f.id == e.id
    } else if e.links@.len() > 0 {
        f.id@ == feed_link_id(e.links@[0].href@, opt_str_view(e.title))
    } else {
        f.id@.len() == 36
    }
}

pub open spec fn ids_filled(d: FeedDocument, f: FeedDocument) -> bool {
    &&& f.title == d.title
    &&& f.entries@.len() == d.entries@.len()
    &&& forall|i: int| 0 <= i < d.entries@.len() ==> entry_id_filled(#[trigger] d.entries@[i], f.entries@[i])
}

/// Gives every entry without an id the one `feed-rs` would give it.
fn fill_ids(doc: FeedDocument) -> (r: FeedDocument)
    ensures
        ids_filled(doc, r),
{
    let ghost orig = doc.entries@;
    let FeedDocument { title, entries } = doc;
    let mut entries = entries;
    let mut out: Vec<FeedEntry> = Vec::new();
    while entries.len() > 0
        invariant
            out.len() + entries.len() == orig.len(),
            entries@ == orig.skip(out.len() as int),
            forall|k: int| 0 <= k < out.len() ==> entry_id_filled(#[trigger] orig[k], out@[k]),
        decreases entries.len(),
    {
        let ghost n = out.len();
        let mut e = entries.remove(0);
        assert(e == orig[n as int]);
        if e.id.as_str().is_empty() {
            if e.links.len() > 0 {
                let id = match &e.title {
                    Some(t) => link_title_id(e.links[0].href.as_str(), Some(t.as_str())),
                    None => link_title_id(e.links[0].href.as_str(), None),
                };
                e.id = id;
            } else {
                e.id = random_entry_id();
            }
        }
        out.push(e);
        assert(orig.skip(n as int).drop_first() =~= orig.skip(n + 1));
    }
    FeedDocument { title, entries: out }
}

/// [`ParsedItem`] with its strings as character sequences.
#[verifier::ext_equal]
pub struct ParsedItemView {
    pub key: Seq<char>,
    pub title: Seq<char>,
    pub link: Seq<char>,
    pub published: i64,
    pub body: Seq<char>,
}

impl View for ParsedItem {
    type V = ParsedItemView;

    open spec fn view(&self) -> ParsedItemView {
        ParsedItemView {
            key: self.key@,
            title: self.title@,
            link: self.link@,
            published: self.published,
            body: self.body@,
        }
    }
}

pub open spec fn items_view(v: Seq<ParsedItem>) -> Seq<ParsedItemView> {
    v.map_values(|i: ParsedItem| i@)
}

/// Feed text as plain text, cut to [`MAX_BODY`] characters plus `…`.
pub open spec fn to_plain_spec(t: Seq<char>) -> Seq<char> {
    let p = html_to_text_spec(t);
    if p.len() > MAX_BODY {
        p.take(MAX_BODY as int).push('…')
    } else {
        p
    }
}

fn to_plain(text: &str) -> (r: String)
    ensures
        r@ == to_plain_spec(text@),
{
    let plain = html_to_text(text);
    let chars = chars_of(plain.as_str());
    if chars.len() > MAX_BODY {
        let mut out = String::new();
        let mut i: usize = 0;
        while i < MAX_BODY
            invariant
                i <= MAX_BODY < chars.len(),
                out@ == chars@.take(i as int),
            decreases MAX_BODY - i,
        {
            push_char(&mut out, chars[i]);
            i += 1;
            assert(out@ =~= chars@.take(i as int));
        }
        push_char(&mut out, '…');
        out
    } else {
        plain
    }
}

/// The body of a content element, unless it is missing or blank.
pub open spec fn content_body_spec(content: Option<Option<String>>) -> Option<Seq<char>> {
    match content {
        Some(Some(b)) => if trim_seq(b@).len() == 0 {
            None
        } else {
            Some(to_plain_spec(b@))
        },
        _ => None,
    }
}

/// The entry's content, else its summary, else nothing.
pub open spec fn entry_body_spec(e: FeedEntry) -> Seq<char> {
    match content_body_spec(e.content) {
        Some(b) => b,
        None => match e.summary {
            Some(s) => to_plain_spec(s@),
            None => Seq::empty(),
        },
    }
}

fn entry_body(e: &FeedEntry) -> (r: String)
    ensures
        r@ == entry_body_spec(*e),
{
    match &e.content {
        Some(Some(b)) => {
            let t = trim(b.as_str());
            if !t.as_str().is_empty() {
                return to_plain(b.as_str());
            }
        },
        _ => {},
    }
    match &e.summary {
        Some(s) => to_plain(s.as_str()),
        None => String::new(),
    }
}

/// The first `alternate` link that is an http(s) URL.
pub open spec fn first_alternate(links: Seq<FeedLink>) -> Option<Seq<char>>
    decreases links.len(),
{
    if links.len() == 0 {
        None
    } else if (links[0].rel matches Some(r) && r@ == "alternate"@) && is_http_url_spec(links[0].href@) {
        Some(links[0].href@)
    } else {
        first_alternate(links.drop_first())
    }
}

/// The first link that is an http(s) URL.
pub open spec fn first_http(links: Seq<FeedLink>) -> Option<Seq<char>>
    decreases links.len(),
{
    if links.len() == 0 {
        None
    } else if is_http_url_spec(links[0].href@) {
        Some(links[0].href@)
    } else {
        first_http(links.drop_first())
    }
}

/// The entry's link: its `alternate` http(s) link, else any http(s) link,
/// else nothing.
pub open spec fn entry_link_spec(links: Seq<FeedLink>) -> Seq<char> {
    match first_alternate(links) {
        Some(h) => h,
        None => match first_http(links) {
            Some(h) => h,
            None => Seq::empty(),
        },
    }
}

#[verifier::loop_isolation(false)]
fn entry_link(e: &FeedEntry) -> (r: String)
    ensures
        r@ == entry_link_spec(e.links@),
{
    let links = &e.links;
    let mut i: usize = 0;
    assert(links@.skip(0) =~= links@);
    while i < links.len()
        invariant
            i <= links.len(),
            first_alternate(links@) == first_alternate(links@.skip(i as int)),
        decreases links.len() - i,
    {
        assert(links@.skip(i as int).drop_first() =~= links@.skip(i + 1));
        assert(links@.skip(i as int)[0] == links@[i as int]);
        let alternate = match &links[i].rel {
            Some(r) => str_eq(r.as_str(), "alternate"),
            None => false,
        };
        if alternate && is_http_url(links[i].href.as_str()) {
            assert(first_alternate(links@.skip(i as int)) == Some(links@[i as int].href@));
            return links[i].href.clone();
        }
        i += 1;
    }
    let mut j: usize = 0;
    while j < links.len()
        invariant
            j <= links.len(),
            first_alternate(links@) is None,
            first_http(links@) == first_http(links@.skip(j as int)),
        decreases links.len() - j,
    {
        assert(links@.skip(j as int).drop_first() =~= links@.skip(j + 1));
        assert(links@.skip(j as int)[0] == links@[j as int]);
        if is_http_url(links[j].href.as_str()) {
            assert(first_http(links@.skip(j as int)) == Some(links@[j as int].href@));
            return links[j].href.clone();
        }
        j += 1;
    }
    String::new()
}

/// FNV-1a over the bytes.
pub open spec fn fnv1a(bytes: Seq<u8>) -> u64
    decreases bytes.len(),
{
    if bytes.len() == 0 {
        0xcbf29ce484222325u64
    } else {
        vstd::wrapping::u64_specs::wrapping_mul(fnv1a(bytes.drop_last()) ^ (bytes.last() as u64), 0x100000001b3u64)
    }
}

pub open spec fn hex_char(d: nat) -> char {
    if d < 10 {
        ((48 + d) as u32) as char
    } else {
        ((87 + d) as u32) as char
    }
}

/// The last `k` lowercase hexadecimal digits of `n`, zero-padded.
pub open spec fn hex_digits(n: nat, k: nat) -> Seq<char>
    decreases k,
{
    if k == 0 {
        Seq::empty()
    } else {
        hex_digits(n / 16, (k - 1) as nat).push(hex_char(n % 16))
    }
}

/// `format!("{source_id}:{hash:016x}")` with the FNV-1a hash of the
/// identity's UTF-8 bytes.
pub open spec fn stable_key_spec(source_id: Seq<char>, identity: Seq<char>) -> Seq<char> {
    source_id + ":"@ + hex_digits(fnv1a(encode_utf8(identity)) as nat, 16)
}

fn hex_digit(d: u64) -> (c: char)
    requires
        d < 16,
    ensures
        c == hex_char(d as nat),
{
    match d {
        0 => '0',
        1 => '1',
        2 => '2',
        3 => '3',
        4 => '4',
        5 => '5',
        6 => '6',
        7 => '7',
        8 => '8',
        9 => '9',
        10 => 'a',
        11 => 'b',
        12 => 'c',
        13 => 'd',
        14 => 'e',
        _ => 'f',
    }
}

fn push_hex(s: &mut String, n: u64, k: u64)
    ensures
        final(s)@ == old(s)@ + hex_digits(n as nat, k as nat),
    decreases k,
{
    if k > 0 {
        push_hex(s, n / 16, k - 1);
        push_char(s, hex_digit(n % 16));
    }
}

/// A key that stays the same for the same entry of the same source.
pub fn stable_key(source_id: &str, identity: &str) -> (key: String)
    ensures
        key@ == stable_key_spec(source_id@, identity@),
{
    let bytes = identity.as_bytes();
    let mut hash: u64 = 0xcbf29ce484222325;
    let mut i: usize = 0;
    while i < bytes.len()
        invariant
            i <= bytes.len(),
            bytes@ == encode_utf8(identity@),
            hash == fnv1a(bytes@.take(i as int)),
        decreases bytes.len() - i,
    {
        assert(bytes@.take(i + 1).drop_last() =~= bytes@.take(i as int));
        hash = hash ^ (bytes[i] as u64);
        hash = hash.wrapping_mul(0x100000001b3);
        i += 1;
    }
    assert(bytes@.take(bytes.len() as int) =~= bytes@);
    let mut key = source_id.to_owned();
    key.append(":");
    push_hex(&mut key, hash, 16);
    key
}

/// The entry's title as plain text, `Untitled` when empty or missing.
pub open spec fn item_title_spec(e: FeedEntry) -> Seq<char> {
    match e.title {
        Some(t) => if to_plain_spec(t@).len() > 0 {
            to_plain_spec(t@)
        } else {
            "Untitled"@
        },
        None => "Untitled"@,
    }
}

pub open spec fn parsed_item_spec(source_id: Seq<char>, e: FeedEntry) -> ParsedItemView {
    let title = item_title_spec(e);
    let link = entry_link_spec(e.links@);
    let identity = if e.id@.len() == 0 { link + "|"@ + title } else { e.id@ };
    ParsedItemView {
        key: stable_key_spec(source_id, identity),
        title,
        link,
        published: match e.published {
            Some(p) => p,
            None => match e.updated {
                Some(u) => u,
                None => 0,
            },
        },
        body: entry_body_spec(e),
    }
}

fn parsed_item(source_id: &str, e: &FeedEntry) -> (item: ParsedItem)
    ensures
        item@ == parsed_item_spec(source_id@, *e),
{
    let title = match &e.title {
        Some(t) => {
            let p = to_plain(t.as_str());
            if !p.as_str().is_empty() {
                p
            } else {
                "Untitled".to_owned()
            }
        },
        None => "Untitled".to_owned(),
    };
    let link = entry_link(e);
    let identity = if e.id.as_str().is_empty() {
        let mut id = link.clone();
        id.append("|");
        id.append(title.as_str());
        id
    } else {
        e.id.clone()
    };
    let published = match e.published {
        Some(p) => p,
        None => match e.updated {
            Some(u) => u,
            None => 0,
        },
    };
    ParsedItem {
        key: stable_key(source_id, identity.as_str()),
        title,
        link,
        published,
        body: entry_body(e),
    }
}

/// Items with a title or a body are kept.
pub open spec fn worth_keeping(i: ParsedItemView) -> bool {
    i.title.len() > 0 || i.body.len() > 0
}

pub open spec fn kept_items(source_id: Seq<char>, entries: Seq<FeedEntry>) -> Seq<ParsedItemView>
    decreases entries.len(),
{
    if entries.len() == 0 {
        Seq::empty()
    } else {
        let rest = kept_items(source_id, entries.drop_last());
        let item = parsed_item_spec(source_id, entries.last());
        if worth_keeping(item) {
            rest.push(item)
        } else {
            rest
        }
    }
}

/// The feed's title as plain text, and its first [`MAX_ITEMS`] entries that
/// have a title or a body.
pub open spec fn from_feed_spec(doc: FeedDocument, source_id: Seq<char>) -> (Seq<char>, Seq<ParsedItemView>) {
    let items = kept_items(source_id, doc.entries@);
    (
        match doc.title {
            Some(t) => to_plain_spec(t@),
            None => Seq::empty(),
        },
        if items.len() > MAX_ITEMS { items.take(MAX_ITEMS as int) } else { items },
    )
}

/// What this client keeps of a parsed feed document.
pub fn from_feed(doc: &FeedDocument, source_id: &str) -> (feed: ParsedFeed)
    ensures
        (feed.title@, items_view(feed.items@)) == from_feed_spec(*doc, source_id@),
{
    let mut items: Vec<ParsedItem> = Vec::new();
    let mut i: usize = 0;
    while i < doc.entries.len()
        invariant
            i <= doc.entries.len(),
            items_view(items@) == kept_items(source_id@, doc.entries@.take(i as int)),
        decreases doc.entries.len() - i,
    {
        let item = parsed_item(source_id, &doc.entries[i]);
        let ghost before = items@;
        assert(doc.entries@.take(i + 1).drop_last() =~= doc.entries@.take(i as int));
        if !item.title.as_str().is_empty() || !item.body.as_str().is_empty() {
            items.push(item);
            assert(items_view(items@) =~= items_view(before).push(item@));
        }
        i += 1;
    }
    assert(doc.entries@.take(doc.entries.len() as int) =~= doc.entries@);
    let ghost all = items@;
    items.truncate(MAX_ITEMS);
    assert(items_view(items@) =~= (if items_view(all).len() > MAX_ITEMS {
        items_view(all).take(MAX_ITEMS as int)
    } else {
        items_view(all)
    }));
    let title = match &doc.title {
        Some(t) => to_plain(t.as_str()),
        None => String::new(),
    };
    ParsedFeed { title, items }
}

/// What a parsed document gives once its missing ids are filled: the
/// feed's title and the items kept.
pub open spec fn parsed_post(doc: FeedDocument, source_id: Seq<char>, feed: ParsedFeed) -> bool {
    exists|filled: FeedDocument|
        ids_filled(doc, filled) && (feed.title@, items_view(feed.items@)) == #[trigger] from_feed_spec(filled, source_id)
}

pub open spec fn unsafe_feed_message() -> Seq<char> {
    "The feed has Media RSS data this reader does not accept."@
}

/// What parsing gives: a document `feed-rs` could panic on
/// ([`feed_bytes_safe`]) is refused; any other is `feed-rs`'s parse, its
/// ids filled and reduced to what this client keeps, or `feed-rs`'s error.
pub open spec fn parse_post(bytes: Seq<u8>, source_id: Seq<char>, r: Result<ParsedFeed, String>) -> bool {
    if !feed_bytes_safe(bytes) {
        r matches Err(m) && m@ == unsafe_feed_message()
    } else {
        match (r, feed_rs_parse(bytes)) {
            (Ok(feed), Ok(doc)) => parsed_post(doc, source_id, feed),
            (Err(m), Err(named)) => m@ == named,
            _ => false,
        }
    }
}

/// A feed document parsed and reduced to what this client keeps.
pub fn parse_document(bytes: &[u8], source_id: &str) -> (r: Result<ParsedFeed, String>)
    ensures
        parse_post(bytes@, source_id@, r),
{
    if !feed_bytes_safe_check(bytes) {
        return Err("The feed has Media RSS data this reader does not accept.".to_owned());
    }
    match parse_feed_bytes(bytes) {
        Ok(doc) => {
            let ghost d = doc;
            let filled = fill_ids(doc);
            let feed = from_feed(&filled, source_id);
            assert(ids_filled(d, filled) && (feed.title@, items_view(feed.items@)) == from_feed_spec(filled, source_id@));
            Ok(feed)
        },
        Err(m) => Err(m),
    }
}

/// `true` when `url` is an `http` or `https` URL with no whitespace.
pub fn is_http_url(url: &str) -> (r: bool)
    ensures
        r == is_http_url_spec(url@),
{
    crate::format::is_http_url(url)
}

/// An item's date is the entry's published time; an entry with none is
/// dated by its updated time, and one with neither gets 0.
pub proof fn law_item_date(source_id: Seq<char>, e: FeedEntry)
    ensures
        e.published matches Some(p) ==> parsed_item_spec(source_id, e).published == p,
        e.published is None ==> (e.updated matches Some(u) ==> parsed_item_spec(source_id, e).published == u),
        e.published is None && e.updated is None ==> parsed_item_spec(source_id, e).published == 0,
{
}

/// Every kept item is the item of one of the document's entries.
pub proof fn law_kept_items_come_from_entries(source_id: Seq<char>, entries: Seq<FeedEntry>, i: int)
    requires
        0 <= i < kept_items(source_id, entries).len(),
    ensures
        exists|j: int| 0 <= j < entries.len() && kept_items(source_id, entries)[i] == parsed_item_spec(source_id, #[trigger] entries[j]),
    decreases entries.len(),
{
    let rest = kept_items(source_id, entries.drop_last());
    if i < rest.len() {
        law_kept_items_come_from_entries(source_id, entries.drop_last(), i);
        let j = choose|j: int| 0 <= j < entries.drop_last().len() && rest[i] == parsed_item_spec(source_id, #[trigger] entries.drop_last()[j]);
        assert(entries.drop_last()[j] == entries[j]);
    } else {
        assert(entries[entries.len() - 1] == entries.last());
    }
}

/// An item always has a title: the entry's own as plain text, or
/// `Untitled` when the entry has none.
pub proof fn law_item_title(source_id: Seq<char>, e: FeedEntry)
    ensures
        parsed_item_spec(source_id, e).title.len() > 0,
        e.title is None ==> parsed_item_spec(source_id, e).title == "Untitled"@,
{
    reveal_strlit("Untitled");
}

proof fn lemma_first_alternate_found(links: Seq<FeedLink>)
    ensures
        first_alternate(links) matches Some(h) ==> exists|j: int|
            0 <= j < links.len() && (#[trigger] links[j]).href@ == h && is_http_url_spec(h)
                && (links[j].rel matches Some(r) && r@ == "alternate"@),
        forall|j: int| 0 <= j < links.len() && (#[trigger] links[j].rel matches Some(r) && r@ == "alternate"@)
            && is_http_url_spec(links[j].href@) ==> first_alternate(links) is Some,
    decreases links.len(),
{
    if links.len() > 0 {
        lemma_first_alternate_found(links.drop_first());
        assert forall|j: int| 1 <= j < links.len() implies links[j] == links.drop_first()[j - 1] by {}
        if first_alternate(links) is Some && !((links[0].rel matches Some(r) && r@ == "alternate"@) && is_http_url_spec(links[0].href@)) {
            let h = first_alternate(links)->0;
            let j = choose|j: int| 0 <= j < links.drop_first().len() && (#[trigger] links.drop_first()[j]).href@ == h
                && is_http_url_spec(h) && (links.drop_first()[j].rel matches Some(r) && r@ == "alternate"@);
            assert(links[j + 1] == links.drop_first()[j]);
        }
    }
}

proof fn lemma_first_http_found(links: Seq<FeedLink>)
    ensures
        first_http(links) matches Some(h) ==> exists|j: int|
            0 <= j < links.len() && (#[trigger] links[j]).href@ == h && is_http_url_spec(h),
        first_http(links) is None <==> forall|j: int| 0 <= j < links.len() ==> !is_http_url_spec(#[trigger] links[j].href@),
    decreases links.len(),
{
    if links.len() > 0 {
        lemma_first_http_found(links.drop_first());
        assert forall|j: int| 1 <= j < links.len() implies links[j] == links.drop_first()[j - 1] by {}
        if first_http(links) is Some && !is_http_url_spec(links[0].href@) {
            let h = first_http(links)->0;
            let j = choose|j: int| 0 <= j < links.drop_first().len() && (#[trigger] links.drop_first()[j]).href@ == h
                && is_http_url_spec(h);
            assert(links[j + 1] == links.drop_first()[j]);
        }
    }
}

/// An item's link is the address of one of the entry's http(s) links, an
/// `alternate` one when there is one; it is empty exactly when the entry
/// has no http(s) link.
pub proof fn law_item_link(source_id: Seq<char>, e: FeedEntry)
    ensures
        ({
            let link = parsed_item_spec(source_id, e).link;
            let links = e.links@;
            &&& link.len() > 0 ==> exists|j: int|
                0 <= j < links.len() && (#[trigger] links[j]).href@ == link && is_http_url_spec(link)
            &&& link.len() == 0 <==> forall|j: int| 0 <= j < links.len() ==> !is_http_url_spec(#[trigger] links[j].href@)
            &&& (exists|j: int| 0 <= j < links.len() && (#[trigger] links[j].rel matches Some(r) && r@ == "alternate"@)
                && is_http_url_spec(links[j].href@)) ==> exists|j: int|
                0 <= j < links.len() && (#[trigger] links[j]).href@ == link
                    && (links[j].rel matches Some(r) && r@ == "alternate"@)
        }),
{
    let links = e.links@;
    lemma_first_alternate_found(links);
    lemma_first_http_found(links);
}

/// Every entry gives an item (each has a title), in the entries' order.
pub proof fn law_every_entry_kept(source_id: Seq<char>, entries: Seq<FeedEntry>)
    ensures
        kept_items(source_id, entries) == entries.map_values(|e: FeedEntry| parsed_item_spec(source_id, e)),
    decreases entries.len(),
{
    if entries.len() > 0 {
        law_every_entry_kept(source_id, entries.drop_last());
        law_item_title(source_id, entries.last());
        assert(entries.map_values(|e: FeedEntry| parsed_item_spec(source_id, e)) =~= entries.drop_last().map_values(
            |e: FeedEntry| parsed_item_spec(source_id, e),
        ).push(parsed_item_spec(source_id, entries.last())));
    } else {
        assert(entries.map_values(|e: FeedEntry| parsed_item_spec(source_id, e)) =~= Seq::<ParsedItemView>::empty());
    }
}

proof fn lemma_hex_digits(n: nat, k: nat)
    ensures
        hex_digits(n, k).len() == k,
        forall|i: int| 0 <= i < k ==> ('0' <= #[trigger] hex_digits(n, k)[i] <= '9' || 'a' <= hex_digits(n, k)[i] <= 'f'),
    decreases k,
{
    if k > 0 {
        lemma_hex_digits(n / 16, (k - 1) as nat);
        let d = n % 16;
        if d < 10 {
            assert(48 <= 48 + d <= 57);
        } else {
            assert(97 <= 87 + d <= 102);
        }
    }
}

/// An item's key is the source's id, a colon, and sixteen lowercase
/// hexadecimal digits; two entries of one source with the same non-empty
/// id get the same key, whatever else differs.
pub proof fn law_item_key(source_id: Seq<char>, e: FeedEntry, f: FeedEntry)
    ensures
        ({
            let key = parsed_item_spec(source_id, e).key;
            &&& key.len() == source_id.len() + 17
            &&& key.take(source_id.len() as int) == source_id
            &&& key[source_id.len() as int] == ':'
            &&& forall|i: int| source_id.len() + 1 <= i < key.len() ==> ('0' <= #[trigger] key[i] <= '9' || 'a' <= key[i] <= 'f')
        }),
        e.id@.len() > 0 && e.id@ == f.id@ ==> parsed_item_spec(source_id, e).key == parsed_item_spec(source_id, f).key,
{
    reveal_strlit(":");
    let identity = if e.id@.len() == 0 { entry_link_spec(e.links@) + "|"@ + item_title_spec(e) } else { e.id@ };
    let h = hex_digits(fnv1a(encode_utf8(identity)) as nat, 16);
    lemma_hex_digits(fnv1a(encode_utf8(identity)) as nat, 16);
    let key = parsed_item_spec(source_id, e).key;
    assert(key == source_id + ":"@ + h);
    assert(key.take(source_id.len() as int) =~= source_id);
    assert forall|i: int| source_id.len() + 1 <= i < key.len() implies ('0' <= #[trigger] key[i] <= '9' || 'a' <= key[i] <= 'f') by {
        assert(key[i] == h[i - source_id.len() - 1]);
    }
}

/// An item's body is the plain text of the entry's content when that is
/// not blank, else the plain text of its summary, else empty.
pub proof fn law_item_body(source_id: Seq<char>, e: FeedEntry)
    ensures
        ({
            let body = parsed_item_spec(source_id, e).body;
            let has_content = e.content is Some && e.content->0 is Some && trim_seq(e.content->0->0@).len() > 0;
            &&& has_content ==> body == to_plain_spec(e.content->0->0@)
            &&& !has_content && e.summary is Some ==> body == to_plain_spec(e.summary->0@)
            &&& !has_content && e.summary is None ==> body.len() == 0
        }),
{
}

} // verus!
