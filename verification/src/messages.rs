//! The desktop session's message store: for each chat, the visible
//! messages it has seen by id, as the transcript shows them.

use vstd::prelude::*;
use crate::seqs::{
    find_where, first_where, lemma_find_put_where, lemma_first_where_found, lemma_first_where_none, lemma_first_where_some,
    lemma_put_where, lemma_remove_where, put_where, remove_where, unique_by,
};
use crate::shell::{
    bucket_view, copy_links, copy_opt, links_view, opt_text, MessageKind, StoredMessage, StoredView, TextLink,
    TextLinkView,
};
use crate::textutil::str_eq;

verus! {

/// The visible content of a message: what `messageText` and `messagePhoto`
/// carry, with the local paths of photos that have downloaded.
pub struct MessageContent {
    pub kind: MessageKind,
    pub text: String,
    pub photo: Option<String>,
    pub photo_full: Option<String>,
    pub photo_full_width: i32,
    pub photo_full_height: i32,
    pub links: Vec<TextLink>,
}

impl MessageContent {
    /// A copy that shows the same.
    pub fn copy(&self) -> (r: MessageContent)
        ensures
            r.kind == self.kind,
            r.text@ == self.text@,
            opt_text(r.photo) == opt_text(self.photo),
            opt_text(r.photo_full) == opt_text(self.photo_full),
            r.photo_full_width == self.photo_full_width,
            r.photo_full_height == self.photo_full_height,
            links_view(r.links@) == links_view(self.links@),
    {
        MessageContent {
            kind: self.kind,
            text: self.text.clone(),
            photo: copy_opt(&self.photo),
            photo_full: copy_opt(&self.photo_full),
            photo_full_width: self.photo_full_width,
            photo_full_height: self.photo_full_height,
            links: copy_links(&self.links),
        }
    }
}

/// Which local path a finished photo download fills.
#[derive(Clone, Copy, Debug, PartialEq, Eq, Structural)]
pub enum PhotoSlot {
    /// The chat-bubble preview.
    Preview,
    /// The popup: the largest size of the photo.
    Full,
    /// Preview and popup are the same file.
    Both,
}

/// A stored message with new content; sender, direction and date stay.
pub open spec fn with_content(m: StoredView, c: MessageContent) -> StoredView {
    StoredView {
        text: c.text@,
        kind: c.kind,
        photo: opt_text(c.photo),
        photo_full: opt_text(c.photo_full),
        photo_full_width: c.photo_full_width,
        photo_full_height: c.photo_full_height,
        links: links_view(c.links@),
        ..m
    }
}

pub struct MessageStore {
    buckets: Vec<(i64, Vec<(i64, StoredMessage)>)>,
}

pub open spec fn store_view(v: Seq<(i64, Vec<(i64, StoredMessage)>)>) -> Seq<(i64, Seq<(i64, StoredView)>)> {
    v.map_values(|e: (i64, Vec<(i64, StoredMessage)>)| (e.0, bucket_view(e.1@)))
}

impl View for MessageStore {
    type V = Seq<(i64, Seq<(i64, StoredView)>)>;

    closed spec fn view(&self) -> Seq<(i64, Seq<(i64, StoredView)>)> {
        store_view(self.buckets@)
    }
}

pub open spec fn bucket_key() -> spec_fn((i64, Seq<(i64, StoredView)>)) -> i64 {
    |e: (i64, Seq<(i64, StoredView)>)| e.0
}

pub open spec fn bucket_is(chat_id: i64) -> spec_fn((i64, Seq<(i64, StoredView)>)) -> bool {
    |e: (i64, Seq<(i64, StoredView)>)| e.0 == chat_id
}

pub open spec fn message_key() -> spec_fn((i64, StoredView)) -> i64 {
    |e: (i64, StoredView)| e.0
}

pub open spec fn message_is(id: i64) -> spec_fn((i64, StoredView)) -> bool {
    |e: (i64, StoredView)| e.0 == id
}

/// Each chat has one bucket, and each bucket one message per id.
pub open spec fn store_wf(s: Seq<(i64, Seq<(i64, StoredView)>)>) -> bool {
    &&& unique_by(s, bucket_key())
    &&& forall|k: int| 0 <= k < s.len() ==> unique_by(#[trigger] s[k].1, message_key())
}

/// The messages of a chat, none when the store has no bucket for it.
pub open spec fn bucket_of(s: Seq<(i64, Seq<(i64, StoredView)>)>, chat_id: i64) -> Seq<(i64, StoredView)> {
    match find_where(s, bucket_is(chat_id)) {
        Some(e) => e.1,
        None => Seq::empty(),
    }
}

/// The store with the bucket of `chat_id` set to `b`.
pub open spec fn put_bucket(
    s: Seq<(i64, Seq<(i64, StoredView)>)>,
    chat_id: i64,
    b: Seq<(i64, StoredView)>,
) -> Seq<(i64, Seq<(i64, StoredView)>)> {
    put_where(s, bucket_is(chat_id), (chat_id, b))
}

/// The store after a message arrives, whether it is new, and whether it
/// differs from the stored one. The chat gets a bucket either way; the
/// message is stored when it changed.
pub open spec fn remember_spec(
    s: Seq<(i64, Seq<(i64, StoredView)>)>,
    chat_id: i64,
    id: i64,
    m: StoredView,
) -> (Seq<(i64, Seq<(i64, StoredView)>)>, bool, bool) {
    let b = bucket_of(s, chat_id);
    let changed = match find_where(b, message_is(id)) {
        Some(e) => e.1 != m,
        None => true,
    };
    (
        put_bucket(s, chat_id, if changed { put_where(b, message_is(id), (id, m)) } else { b }),
        find_where(b, message_is(id)) is None,
        changed,
    )
}

/// The store after `updateMessageContent`, and whether the chat is known.
/// Content that cannot be shown removes the message; other content
/// replaces a stored message's content.
pub open spec fn content_spec(
    s: Seq<(i64, Seq<(i64, StoredView)>)>,
    chat_id: i64,
    id: i64,
    c: Option<MessageContent>,
) -> (Seq<(i64, Seq<(i64, StoredView)>)>, bool) {
    match find_where(s, bucket_is(chat_id)) {
        None => (s, false),
        Some(e) => match c {
            None => (put_bucket(s, chat_id, remove_where(e.1, message_is(id))), true),
            Some(cv) => match find_where(e.1, message_is(id)) {
                Some(me) => (
                    put_bucket(s, chat_id, put_where(e.1, message_is(id), (id, with_content(me.1, cv)))),
                    true,
                ),
                None => (s, false),
            },
        },
    }
}

/// The store after a photo of a stored message has downloaded, and whether
/// a path changed.
pub open spec fn photo_spec(
    s: Seq<(i64, Seq<(i64, StoredView)>)>,
    chat_id: i64,
    id: i64,
    slot: PhotoSlot,
    path: Seq<char>,
) -> (Seq<(i64, Seq<(i64, StoredView)>)>, bool) {
    match find_where(bucket_of(s, chat_id), message_is(id)) {
        None => (s, false),
        Some(me) => {
            let m = me.1;
            let preview = !(slot is Full) && m.photo != Some(path);
            let full = !(slot is Preview) && m.photo_full != Some(path);
            let m1 = if preview { StoredView { photo: Some(path), ..m } } else { m };
            let m2 = if full { StoredView { photo_full: Some(path), ..m1 } } else { m1 };
            if preview || full {
                (put_bucket(s, chat_id, put_where(bucket_of(s, chat_id), message_is(id), (id, m2))), true)
            } else {
                (s, false)
            }
        },
    }
}

fn links_equal(a: &Vec<TextLink>, b: &Vec<TextLink>) -> (r: bool)
    ensures
        r == (links_view(a@) == links_view(b@)),
{
    if a.len() != b.len() {
        assert(links_view(a@).len() != links_view(b@).len());
        return false;
    }
    let mut i: usize = 0;
    while i < a.len()
        invariant
            i <= a.len(),
            a.len() == b.len(),
            forall|j: int| 0 <= j < i ==> a@[j]@ == b@[j]@,
        decreases a.len() - i,
    {
        if a[i].start != b[i].start || a[i].end != b[i].end || !str_eq(a[i].url.as_str(), b[i].url.as_str()) {
            assert(links_view(a@)[i as int] != links_view(b@)[i as int]);
            return false;
        }
        i += 1;
    }
    assert(links_view(a@) =~= links_view(b@));
    true
}

fn opt_equal(a: &Option<String>, b: &Option<String>) -> (r: bool)
    ensures
        r == (opt_text(*a) == opt_text(*b)),
{
    match (a, b) {
        (Some(x), Some(y)) => str_eq(x.as_str(), y.as_str()),
        (None, None) => true,
        _ => false,
    }
}

fn opt_is(a: &Option<String>, path: &str) -> (r: bool)
    ensures
        r == (opt_text(*a) == Some(path@)),
{
    match a {
        Some(x) => str_eq(x.as_str(), path),
        None => false,
    }
}

/// Whether two stored messages show the same.
pub fn same_message(a: &StoredMessage, b: &StoredMessage) -> (r: bool)
    ensures
        r == (a@ == b@),
{
    a.sender_id == b.sender_id && a.sender_chat == b.sender_chat && a.outgoing == b.outgoing && str_eq(
        a.text.as_str(),
        b.text.as_str(),
    ) && a.date == b.date && a.kind == b.kind && opt_equal(&a.photo, &b.photo) && opt_equal(
        &a.photo_full,
        &b.photo_full,
    ) && a.photo_full_width == b.photo_full_width && a.photo_full_height == b.photo_full_height
        && links_equal(&a.links, &b.links)
}

fn message_index(b: &Vec<(i64, StoredMessage)>, id: i64) -> (r: Option<usize>)
    ensures
        match r {
            Some(j) => first_where(bucket_view(b@), message_is(id)) == Some(j as int) && j < b.len(),
            None => first_where(bucket_view(b@), message_is(id)) is None,
        },
{
    let ghost v = bucket_view(b@);
    let mut j: usize = 0;
    while j < b.len()
        invariant
            j <= b.len(),
            v == bucket_view(b@),
            forall|k: int| 0 <= k < j ==> !message_is(id)(#[trigger] v[k]),
        decreases b.len() - j,
    {
        if b[j].0 == id {
            proof {
                assert(message_is(id)(v[j as int]));
                lemma_first_where_found(v, message_is(id), j as int);
            }
            return Some(j);
        }
        assert(!message_is(id)(v[j as int]));
        j += 1;
    }
    proof {
        lemma_first_where_none(v, message_is(id));
    }
    None
}

impl MessageStore {
    pub open spec fn wf(&self) -> bool {
        store_wf(self@)
    }

    pub fn new() -> (s: Self)
        ensures
            s.wf(),
            s@.len() == 0,
    {
        let s = MessageStore { buckets: Vec::new() };
        assert(s@ =~= Seq::<(i64, Seq<(i64, StoredView)>)>::empty());
        s
    }

    fn bucket_index(&self, chat_id: i64) -> (r: Option<usize>)
        ensures
            match r {
                Some(i) => first_where(self@, bucket_is(chat_id)) == Some(i as int) && i < self.buckets.len(),
                None => first_where(self@, bucket_is(chat_id)) is None,
            },
    {
        let ghost v = self@;
        let mut i: usize = 0;
        while i < self.buckets.len()
            invariant
                i <= self.buckets.len(),
                v == store_view(self.buckets@),
                forall|k: int| 0 <= k < i ==> !bucket_is(chat_id)(#[trigger] v[k]),
            decreases self.buckets.len() - i,
        {
            if self.buckets[i].0 == chat_id {
                proof {
                    assert(bucket_is(chat_id)(v[i as int]));
                    lemma_first_where_found(v, bucket_is(chat_id), i as int);
                }
                return Some(i);
            }
            assert(!bucket_is(chat_id)(v[i as int]));
            i += 1;
        }
        proof {
            lemma_first_where_none(v, bucket_is(chat_id));
        }
        None
    }

    /// Whether the store has a bucket for the chat.
    pub fn has_chat(&self, chat_id: i64) -> (r: bool)
        ensures
            r == (find_where(self@, bucket_is(chat_id)) is Some),
    {
        self.bucket_index(chat_id).is_some()
    }

    /// The stored messages of a chat, in the order they arrived.
    pub fn bucket(&self, chat_id: i64) -> (r: &[(i64, StoredMessage)])
        ensures
            bucket_view(r@) == bucket_of(self@, chat_id),
    {
        match self.bucket_index(chat_id) {
            Some(i) => {
                proof {
                    lemma_first_where_some(self@, bucket_is(chat_id));
                }
                self.buckets[i].1.as_slice()
            },
            None => {
                let r: &[(i64, StoredMessage)] = &[];
                assert(bucket_view(r@) =~= Seq::<(i64, StoredView)>::empty());
                r
            },
        }
    }

    /// The ids of a chat's stored messages, in the order they arrived.
    pub fn message_ids(&self, chat_id: i64) -> (r: Vec<i64>)
        ensures
            r@ == bucket_of(self@, chat_id).map_values(|e: (i64, StoredView)| e.0),
    {
        let b = self.bucket(chat_id);
        let ghost want = bucket_of(self@, chat_id).map_values(|e: (i64, StoredView)| e.0);
        let mut r: Vec<i64> = Vec::new();
        let mut k: usize = 0;
        while k < b.len()
            invariant
                k <= b.len(),
                bucket_view(b@) == bucket_of(self@, chat_id),
                want == bucket_of(self@, chat_id).map_values(|e: (i64, StoredView)| e.0),
                r@ == want.take(k as int),
            decreases b.len() - k,
        {
            r.push(b[k].0);
            assert(want[k as int] == bucket_view(b@)[k as int].0);
            k += 1;
            assert(r@ =~= want.take(k as int));
        }
        assert(want.take(want.len() as int) =~= want);
        r
    }

    /// The bucket of a chat taken out of the store for a change, with its
    /// position; a new empty one when the chat has none.
    fn take_bucket(&mut self, chat_id: i64) -> (r: (Option<usize>, Vec<(i64, StoredMessage)>))
        requires
            old(self).wf(),
        ensures
            bucket_view(r.1@) == bucket_of(old(self)@, chat_id),
            unique_by(bucket_view(r.1@), message_key()),
            match r.0 {
                Some(i) => first_where(old(self)@, bucket_is(chat_id)) == Some(i as int) && final(self)@ == old(
                    self,
                )@.remove(i as int),
                None => first_where(old(self)@, bucket_is(chat_id)) is None && final(self)@ == old(self)@,
            },
    {
        let ghost s = self@;
        match self.bucket_index(chat_id) {
            Some(i) => {
                proof {
                    lemma_first_where_some(s, bucket_is(chat_id));
                }
                let (_, b) = self.buckets.remove(i);
                assert(bucket_view(b@) == s[i as int].1);
                assert(store_view(self.buckets@) =~= s.remove(i as int));
                (Some(i), b)
            },
            None => {
                let b: Vec<(i64, StoredMessage)> = Vec::new();
                assert(bucket_view(b@) =~= Seq::<(i64, StoredView)>::empty());
                (None, b)
            },
        }
    }

    /// A bucket taken out by `take_bucket` put back, changed.
    fn put_back(&mut self, at: Option<usize>, chat_id: i64, b: Vec<(i64, StoredMessage)>, Ghost(s): Ghost<Seq<(i64, Seq<(i64, StoredView)>)>>)
        requires
            store_wf(s),
            unique_by(bucket_view(b@), message_key()),
            match at {
                Some(i) => first_where(s, bucket_is(chat_id)) == Some(i as int) && old(self)@ == s.remove(i as int),
                None => first_where(s, bucket_is(chat_id)) is None && old(self)@ == s,
            },
        ensures
            final(self).wf(),
            final(self)@ == put_bucket(s, chat_id, bucket_view(b@)),
    {
        let ghost bv = bucket_view(b@);
        proof {
            lemma_put_where(s, bucket_key(), bucket_is(chat_id), chat_id, (chat_id, bv));
        }
        let ghost before = self.buckets@;
        match at {
            Some(i) => {
                proof {
                    lemma_first_where_some(s, bucket_is(chat_id));
                }
                assert(store_view(self.buckets@).len() == self.buckets@.len());
                assert(self.buckets@.len() == s.len() - 1);
                self.buckets.insert(i, (chat_id, b));
                assert(store_view(self.buckets@) =~= store_view(before).insert(i as int, (chat_id, bv)));
                assert(s.remove(i as int).insert(i as int, (chat_id, bv)) =~= s.update(i as int, (chat_id, bv)));
            },
            None => {
                self.buckets.push((chat_id, b));
                assert(store_view(self.buckets@) =~= s.push((chat_id, bv)));
            },
        }
        proof {
            let r = put_bucket(s, chat_id, bv);
            assert forall|k: int| 0 <= k < r.len() implies unique_by(#[trigger] r[k].1, message_key()) by {
                if r[k] != (chat_id, bv) {
                    if k < s.len() {
                        assert(r[k] == s[k]);
                    }
                }
            }
        }
    }

    /// A visible message arrived: the chat gets a bucket, and the message is
    /// stored when it is new or differs from the stored one. Returns whether
    /// it was new and whether it changed.
    pub fn remember(&mut self, chat_id: i64, id: i64, m: StoredMessage) -> (r: (bool, bool))
        requires
            old(self).wf(),
        ensures
            final(self).wf(),
            (final(self)@, r.0, r.1) == remember_spec(old(self)@, chat_id, id, m@),
    {
        let ghost s = self@;
        let ghost mv = m@;
        let (at, mut b) = self.take_bucket(chat_id);
        let ghost bv = bucket_view(b@);
        proof {
            lemma_put_where(bv, message_key(), message_is(id), id, (id, mv));
        }
        let r = match message_index(&b, id) {
            Some(j) => {
                proof {
                    lemma_first_where_some(bv, message_is(id));
                }
                let same = same_message(&b[j].1, &m);
                if !same {
                    b.set(j, (id, m));
                    assert(bucket_view(b@) =~= bv.update(j as int, (id, mv)));
                }
                (false, !same)
            },
            None => {
                b.push((id, m));
                assert(bucket_view(b@) =~= bv.push((id, mv)));
                (true, true)
            },
        };
        self.put_back(at, chat_id, b, Ghost(s));
        r
    }

    /// `updateMessageContent` for a chat the store has: content that cannot
    /// be shown removes the message, other content replaces a stored
    /// message's. Returns whether the chat and, for visible content, the
    /// message are known.
    pub fn replace_content(&mut self, chat_id: i64, id: i64, content: Option<MessageContent>) -> (known: bool)
        requires
            old(self).wf(),
        ensures
            final(self).wf(),
            (final(self)@, known) == content_spec(old(self)@, chat_id, id, content),
    {
        let ghost s = self@;
        if !self.has_chat(chat_id) {
            return false;
        }
        let (at, mut b) = self.take_bucket(chat_id);
        let ghost bv = bucket_view(b@);
        proof {
            lemma_first_where_some(s, bucket_is(chat_id));
        }
        match content {
            None => {
                proof {
                    lemma_remove_where(bv, message_key(), message_is(id), id);
                }
                if let Some(j) = message_index(&b, id) {
                    b.remove(j);
                    assert(bucket_view(b@) =~= bv.remove(j as int));
                }
                self.put_back(at, chat_id, b, Ghost(s));
                true
            },
            Some(c) => {
                match message_index(&b, id) {
                    Some(j) => {
                        proof {
                            lemma_first_where_some(bv, message_is(id));
                        }
                        let ghost cv = c;
                        let ghost nv = with_content(bv[j as int].1, cv);
                        proof {
                            lemma_put_where(bv, message_key(), message_is(id), id, (id, nv));
                        }
                        let (_, old_m) = b.remove(j);
                        let m = StoredMessage {
                            sender_id: old_m.sender_id,
                            sender_chat: old_m.sender_chat,
                            outgoing: old_m.outgoing,
                            text: c.text,
                            date: old_m.date,
                            kind: c.kind,
                            photo: c.photo,
                            photo_full: c.photo_full,
                            photo_full_width: c.photo_full_width,
                            photo_full_height: c.photo_full_height,
                            links: c.links,
                        };
                        assert(m@ == nv);
                        b.insert(j, (id, m));
                        assert(bucket_view(b@) =~= bv.update(j as int, (id, nv)));
                        self.put_back(at, chat_id, b, Ghost(s));
                        true
                    },
                    None => {
                        self.put_back(at, chat_id, b, Ghost(s));
                        assert(put_bucket(s, chat_id, bv) =~= s) by {
                            let i = first_where(s, bucket_is(chat_id))->0;
                            assert(s.update(i, (chat_id, bv)) =~= s);
                        }
                        false
                    },
                }
            },
        }
    }

    /// A photo of a stored message has downloaded: the slot's paths take
    /// `path`. Returns whether a path changed.
    pub fn set_photo(&mut self, chat_id: i64, id: i64, slot: PhotoSlot, path: &str) -> (changed: bool)
        requires
            old(self).wf(),
        ensures
            final(self).wf(),
            (final(self)@, changed) == photo_spec(old(self)@, chat_id, id, slot, path@),
    {
        let ghost s = self@;
        let (preview, full) = match self.bucket_index(chat_id) {
            Some(i) => {
                proof {
                    lemma_first_where_some(s, bucket_is(chat_id));
                }
                match message_index(&self.buckets[i].1, id) {
                    Some(j) => {
                        proof {
                            lemma_first_where_some(bucket_of(s, chat_id), message_is(id));
                        }
                        let m = &self.buckets[i].1[j].1;
                        (
                            slot != PhotoSlot::Full && !opt_is(&m.photo, path),
                            slot != PhotoSlot::Preview && !opt_is(&m.photo_full, path),
                        )
                    },
                    None => return false,
                }
            },
            None => {
                assert(bucket_of(s, chat_id) =~= Seq::<(i64, StoredView)>::empty());
                return false;
            },
        };
        if !preview && !full {
            return false;
        }
        let (at, mut b) = self.take_bucket(chat_id);
        let ghost bv = bucket_view(b@);
        let j = match message_index(&b, id) {
            Some(j) => j,
            None => {
                return false;
            },
        };
        proof {
            lemma_first_where_some(bv, message_is(id));
        }
        let (_, mut m) = b.remove(j);
        let ghost mv = m@;
        if preview {
            m.photo = Some(path.to_owned());
        }
        if full {
            m.photo_full = Some(path.to_owned());
        }
        let ghost m1 = if preview { StoredView { photo: Some(path@), ..mv } } else { mv };
        let ghost m2 = if full { StoredView { photo_full: Some(path@), ..m1 } } else { m1 };
        assert(m@ == m2);
        proof {
            lemma_put_where(bv, message_key(), message_is(id), id, (id, m2));
        }
        b.insert(j, (id, m));
        assert(bucket_view(b@) =~= bv.update(j as int, (id, m2)));
        self.put_back(at, chat_id, b, Ghost(s));
        true
    }
}

/// Per chat, the last outgoing message the peer has read.
pub struct ReadCursors {
    cursors: Vec<(i64, i64)>,
}

pub open spec fn cursor_key() -> spec_fn((i64, i64)) -> i64 {
    |e: (i64, i64)| e.0
}

pub open spec fn cursor_is(chat_id: i64) -> spec_fn((i64, i64)) -> bool {
    |e: (i64, i64)| e.0 == chat_id
}

/// The read cursor of a chat; `0` when there is none.
pub open spec fn cursor_of(c: Seq<(i64, i64)>, chat_id: i64) -> i64 {
    match find_where(c, cursor_is(chat_id)) {
        Some(e) => e.1,
        None => 0,
    }
}

impl View for ReadCursors {
    type V = Seq<(i64, i64)>;

    closed spec fn view(&self) -> Seq<(i64, i64)> {
        self.cursors@
    }
}

impl ReadCursors {
    pub open spec fn wf(&self) -> bool {
        unique_by(self@, cursor_key())
    }

    pub fn new() -> (r: Self)
        ensures
            r.wf(),
            r@.len() == 0,
    {
        ReadCursors { cursors: Vec::new() }
    }

    fn index(&self, chat_id: i64) -> (r: Option<usize>)
        ensures
            match r {
                Some(i) => first_where(self@, cursor_is(chat_id)) == Some(i as int) && i < self.cursors.len(),
                None => first_where(self@, cursor_is(chat_id)) is None,
            },
    {
        let mut i: usize = 0;
        while i < self.cursors.len()
            invariant
                i <= self.cursors.len(),
                forall|k: int| 0 <= k < i ==> !cursor_is(chat_id)(#[trigger] self@[k]),
            decreases self.cursors.len() - i,
        {
            if self.cursors[i].0 == chat_id {
                proof {
                    lemma_first_where_found(self@, cursor_is(chat_id), i as int);
                }
                return Some(i);
            }
            i += 1;
        }
        proof {
            lemma_first_where_none(self@, cursor_is(chat_id));
        }
        None
    }

    /// The read cursor of a chat; `0` when there is none.
    pub fn cursor(&self, chat_id: i64) -> (r: i64)
        ensures
            r == cursor_of(self@, chat_id),
    {
        match self.index(chat_id) {
            Some(i) => {
                proof {
                    lemma_first_where_some(self@, cursor_is(chat_id));
                }
                self.cursors[i].1
            },
            None => 0,
        }
    }

    /// The peer has read up to `message_id` (`updateChatReadOutbox`, or a
    /// chat's `last_read_outbox_message_id`). Returns whether the cursor
    /// moved.
    pub fn note(&mut self, chat_id: i64, message_id: i64) -> (changed: bool)
        requires
            old(self).wf(),
        ensures
            final(self).wf(),
            final(self)@ == put_where(old(self)@, cursor_is(chat_id), (chat_id, message_id)),
            changed == (find_where(old(self)@, cursor_is(chat_id)) != Some((chat_id, message_id))),
    {
        proof {
            lemma_put_where(self@, cursor_key(), cursor_is(chat_id), chat_id, (chat_id, message_id));
        }
        match self.index(chat_id) {
            Some(i) => {
                proof {
                    lemma_first_where_some(self@, cursor_is(chat_id));
                }
                let changed = self.cursors[i].1 != message_id;
                self.cursors.set(i, (chat_id, message_id));
                changed
            },
            None => {
                self.cursors.push((chat_id, message_id));
                true
            },
        }
    }
}

/// A message remembered again unchanged is neither new nor a change, and
/// the store stays as it was.
pub proof fn law_remember_twice_unchanged(
    s: Seq<(i64, Seq<(i64, StoredView)>)>,
    chat_id: i64,
    id: i64,
    m: StoredView,
)
    requires
        store_wf(s),
    ensures
        find_where(bucket_of(remember_spec(s, chat_id, id, m).0, chat_id), message_is(id)) == Some((id, m)),
        ({
            let again = remember_spec(remember_spec(s, chat_id, id, m).0, chat_id, id, m);
            !again.1 && !again.2 && again.0 == remember_spec(s, chat_id, id, m).0
        }),
{
    let b = bucket_of(s, chat_id);
    let changed = match find_where(b, message_is(id)) {
        Some(e) => e.1 != m,
        None => true,
    };
    let b1 = if changed { put_where(b, message_is(id), (id, m)) } else { b };
    let s1 = put_bucket(s, chat_id, b1);
    lemma_find_put_where(s, bucket_is(chat_id), (chat_id, b1));
    assert(bucket_of(s1, chat_id) == b1);
    if changed {
        lemma_find_put_where(b, message_is(id), (id, m));
    } else {
        lemma_first_where_some(b, message_is(id));
    }
    assert(find_where(b1, message_is(id)) == Some((id, m)));
    match first_where(s1, bucket_is(chat_id)) {
        Some(i) => {
            lemma_first_where_some(s1, bucket_is(chat_id));
            assert(s1[i] == (chat_id, b1));
            assert(s1.update(i, (chat_id, b1)) =~= s1);
        },
        None => {},
    }
}

} // verus!
