//! Paging through chat history: the open chat, the `getChatHistory`
//! requests in flight and their anchors, and the chats whose history has no
//! older page.

use vstd::prelude::*;
use crate::chats::not_id;
use crate::seqs::{
    find_where, first_where, lemma_filter_empty, lemma_filter_take_step, lemma_first_where_found,
    lemma_first_where_none, lemma_first_where_some, lemma_put_where, lemma_remove_where, put_where,
    remove_where, unique_by,
};
use crate::shell::{history_exhausted, history_exhausted_spec};

verus! {

pub struct HistoryTracker {
    open_chat: Option<i64>,
    pending: Vec<i64>,
    from: Vec<(i64, i64)>,
    exhausted: Vec<i64>,
}

#[verifier::ext_equal]
pub struct HistoryView {
    pub open_chat: Option<i64>,
    /// Chats with a `getChatHistory` request that has not answered.
    pub pending: Seq<i64>,
    /// The `from_message_id` of each such request; `0` is the latest page.
    pub from: Seq<(i64, i64)>,
    /// Chats whose older pages came back empty or already known.
    pub exhausted: Seq<i64>,
}

impl View for HistoryTracker {
    type V = HistoryView;

    closed spec fn view(&self) -> HistoryView {
        HistoryView {
            open_chat: self.open_chat,
            pending: self.pending@,
            from: self.from@,
            exhausted: self.exhausted@,
        }
    }
}

pub open spec fn anchor_key() -> spec_fn((i64, i64)) -> i64 {
    |e: (i64, i64)| e.0
}

pub open spec fn anchor_is(chat_id: i64) -> spec_fn((i64, i64)) -> bool {
    |e: (i64, i64)| e.0 == chat_id
}

/// The anchor of the request in flight for a chat.
pub open spec fn anchor_of(from: Seq<(i64, i64)>, chat_id: i64) -> Option<i64> {
    match find_where(from, anchor_is(chat_id)) {
        Some(e) => Some(e.1),
        None => None,
    }
}

/// `s` with `x` added unless it has it.
pub open spec fn set_insert(s: Seq<i64>, x: i64) -> Seq<i64> {
    if s.contains(x) { s } else { s.push(x) }
}

/// The tracker after a chat is opened: it is the open chat, its latest page
/// is asked for, and it may have older pages again. Also the chat to close,
/// if another one was open.
pub open spec fn open_spec(h: HistoryView, chat_id: i64) -> (HistoryView, Option<i64>) {
    (
        HistoryView {
            open_chat: Some(chat_id),
            pending: set_insert(h.pending, chat_id),
            from: put_where(h.from, anchor_is(chat_id), (chat_id, 0)),
            exhausted: h.exhausted.filter(not_id(chat_id)),
        },
        match h.open_chat {
            Some(p) => if p != chat_id { Some(p) } else { None },
            None => None,
        },
    )
}

/// The anchor of an older page for the open chat, when one is due: the chat
/// is open, may have older pages, has no request in flight, and has a
/// stored message to anchor on.
pub open spec fn older_anchor(h: HistoryView, chat_id: i64, oldest: Option<i64>) -> Option<i64> {
    if h.open_chat == Some(chat_id) && !h.exhausted.contains(chat_id) && !h.pending.contains(chat_id) {
        oldest
    } else {
        None
    }
}

/// The tracker after a history reply for a chat: the request is done, and
/// the chat has no older pages when the reply says so.
pub open spec fn finish_spec(h: HistoryView, chat_id: i64, inserted: Seq<i64>, chat_empty: bool) -> HistoryView {
    let anchor = anchor_of(h.from, chat_id);
    HistoryView {
        pending: h.pending.filter(not_id(chat_id)),
        from: remove_where(h.from, anchor_is(chat_id)),
        exhausted: if history_exhausted_spec(anchor, inserted, chat_empty) {
            set_insert(h.exhausted, chat_id)
        } else {
            h.exhausted
        },
        ..h
    }
}

fn contains_id(v: &Vec<i64>, id: i64) -> (r: bool)
    ensures
        r == v@.contains(id),
{
    contains_ids(v.as_slice(), id)
}

/// Whether `id` is among `v`.
pub fn contains_ids(v: &[i64], id: i64) -> (r: bool)
    ensures
        r == v@.contains(id),
{
    let mut k: usize = 0;
    while k < v.len()
        invariant
            k <= v.len(),
            forall|j: int| 0 <= j < k ==> v@[j] != id,
        decreases v.len() - k,
    {
        if v[k] == id {
            assert(v@[k as int] == id);
            return true;
        }
        k += 1;
    }
    false
}

fn without(v: &Vec<i64>, id: i64) -> (r: Vec<i64>)
    ensures
        r@ == v@.filter(not_id(id)),
{
    let mut kept: Vec<i64> = Vec::new();
    let mut k: usize = 0;
    proof {
        lemma_filter_empty(v@, not_id(id));
    }
    while k < v.len()
        invariant
            k <= v.len(),
            kept@ == v@.take(k as int).filter(not_id(id)),
        decreases v.len() - k,
    {
        proof {
            lemma_filter_take_step(v@, k as int, not_id(id));
        }
        if v[k] != id {
            kept.push(v[k]);
        }
        k += 1;
    }
    assert(v@.take(v.len() as int) =~= v@);
    kept
}

fn insert_id(v: &mut Vec<i64>, id: i64)
    ensures
        final(v)@ == set_insert(old(v)@, id),
{
    if !contains_id(v, id) {
        v.push(id);
    }
}

/// The tracker after the history request of a chat failed: it is no
/// longer in flight.
pub open spec fn cancel_spec(h: HistoryView, chat_id: i64) -> HistoryView {
    HistoryView {
        pending: h.pending.filter(not_id(chat_id)),
        from: remove_where(h.from, anchor_is(chat_id)),
        ..h
    }
}

impl HistoryTracker {
    /// Each chat has at most one anchor.
    pub open spec fn wf(&self) -> bool {
        unique_by(self@.from, anchor_key())
    }

    pub fn new() -> (h: Self)
        ensures
            h.wf(),
            h@.open_chat is None,
            h@.pending.len() == 0 && h@.from.len() == 0 && h@.exhausted.len() == 0,
    {
        HistoryTracker { open_chat: None, pending: Vec::new(), from: Vec::new(), exhausted: Vec::new() }
    }

    pub fn open_chat(&self) -> (r: Option<i64>)
        ensures
            r == self@.open_chat,
    {
        self.open_chat
    }

    /// Whether a history request for the chat is in flight.
    pub fn is_pending(&self, chat_id: i64) -> (r: bool)
        ensures
            r == self@.pending.contains(chat_id),
    {
        contains_id(&self.pending, chat_id)
    }

    /// Whether the chat has no older page.
    pub fn is_exhausted(&self, chat_id: i64) -> (r: bool)
        ensures
            r == self@.exhausted.contains(chat_id),
    {
        contains_id(&self.exhausted, chat_id)
    }

    fn anchor_index(&self, chat_id: i64) -> (r: Option<usize>)
        ensures
            match r {
                Some(i) => first_where(self@.from, anchor_is(chat_id)) == Some(i as int) && i < self.from.len(),
                None => first_where(self@.from, anchor_is(chat_id)) is None,
            },
    {
        let mut i: usize = 0;
        while i < self.from.len()
            invariant
                i <= self.from.len(),
                forall|k: int| 0 <= k < i ==> !anchor_is(chat_id)(#[trigger] self@.from[k]),
            decreases self.from.len() - i,
        {
            if self.from[i].0 == chat_id {
                proof {
                    lemma_first_where_found(self@.from, anchor_is(chat_id), i as int);
                }
                return Some(i);
            }
            i += 1;
        }
        proof {
            lemma_first_where_none(self@.from, anchor_is(chat_id));
        }
        None
    }

    /// The anchor of the history request in flight for the chat.
    pub fn anchor(&self, chat_id: i64) -> (r: Option<i64>)
        ensures
            r == anchor_of(self@.from, chat_id),
    {
        match self.anchor_index(chat_id) {
            Some(i) => {
                proof {
                    lemma_first_where_some(self@.from, anchor_is(chat_id));
                }
                Some(self.from[i].1)
            },
            None => None,
        }
    }

    fn set_anchor(&mut self, chat_id: i64, from: i64)
        requires
            old(self).wf(),
        ensures
            final(self).wf(),
            final(self)@ == (HistoryView {
                from: put_where(old(self)@.from, anchor_is(chat_id), (chat_id, from)),
                ..old(self)@
            }),
    {
        proof {
            lemma_put_where(self@.from, anchor_key(), anchor_is(chat_id), chat_id, (chat_id, from));
        }
        match self.anchor_index(chat_id) {
            Some(i) => self.from.set(i, (chat_id, from)),
            None => self.from.push((chat_id, from)),
        }
    }

    /// A chat is opened: it becomes the open chat, its latest page is asked
    /// for, and it may have older pages again. Returns the chat to close,
    /// if another one was open.
    pub fn open(&mut self, chat_id: i64) -> (close: Option<i64>)
        requires
            old(self).wf(),
        ensures
            final(self).wf(),
            (final(self)@, close) == open_spec(old(self)@, chat_id),
    {
        let previous = self.open_chat;
        self.open_chat = Some(chat_id);
        self.exhausted = without(&self.exhausted, chat_id);
        insert_id(&mut self.pending, chat_id);
        self.set_anchor(chat_id, 0);
        match previous {
            Some(p) => if p != chat_id { Some(p) } else { None },
            None => None,
        }
    }

    /// An older page of the open chat is wanted; `oldest` is the oldest
    /// stored message id. Returns the anchor to ask from, and then the
    /// request is in flight.
    pub fn load_older(&mut self, chat_id: i64, oldest: Option<i64>) -> (from: Option<i64>)
        requires
            old(self).wf(),
        ensures
            final(self).wf(),
            from == older_anchor(old(self)@, chat_id, oldest),
            final(self)@ == (match from {
                Some(f) => HistoryView {
                    pending: set_insert(old(self)@.pending, chat_id),
                    from: put_where(old(self)@.from, anchor_is(chat_id), (chat_id, f)),
                    ..old(self)@
                },
                None => old(self)@,
            }),
    {
        if self.open_chat != Some(chat_id) || self.is_exhausted(chat_id) || self.is_pending(chat_id) {
            return None;
        }
        match oldest {
            Some(f) => {
                insert_id(&mut self.pending, chat_id);
                self.set_anchor(chat_id, f);
                Some(f)
            },
            None => None,
        }
    }

    /// A history reply for the chat: `inserted` are the ids it added, and
    /// `chat_empty` says the chat has no stored message.
    pub fn finish(&mut self, chat_id: i64, inserted: &[i64], chat_empty: bool)
        requires
            old(self).wf(),
        ensures
            final(self).wf(),
            final(self)@ == finish_spec(old(self)@, chat_id, inserted@, chat_empty),
    {
        let anchor = self.anchor(chat_id);
        proof {
            lemma_remove_where(self@.from, anchor_key(), anchor_is(chat_id), chat_id);
        }
        if let Some(i) = self.anchor_index(chat_id) {
            self.from.remove(i);
        }
        self.pending = without(&self.pending, chat_id);
        if history_exhausted(anchor, inserted, chat_empty) {
            insert_id(&mut self.exhausted, chat_id);
        }
    }
}

impl HistoryTracker {
    /// The history request of a chat failed: it is no longer in flight.
    pub fn cancel(&mut self, chat_id: i64)
        requires
            old(self).wf(),
        ensures
            final(self).wf(),
            final(self)@ == cancel_spec(old(self)@, chat_id),
    {
        proof {
            lemma_remove_where(self@.from, anchor_key(), anchor_is(chat_id), chat_id);
        }
        if let Some(i) = self.anchor_index(chat_id) {
            self.from.remove(i);
        }
        self.pending = without(&self.pending, chat_id);
    }
}

/// Opening a chat asks for its latest page, and no older page is loaded
/// for it until that reply is in.
pub proof fn law_open_then_no_older_page_until_reply(h: HistoryView, chat_id: i64, oldest: Option<i64>)
    ensures
        open_spec(h, chat_id).0.pending.contains(chat_id),
        anchor_of(open_spec(h, chat_id).0.from, chat_id) == Some(0i64),
        !open_spec(h, chat_id).0.exhausted.contains(chat_id),
        older_anchor(open_spec(h, chat_id).0, chat_id, oldest) is None,
{
    broadcast use vstd::seq_lib::group_filter_ensures;
    let h1 = open_spec(h, chat_id).0;
    if !h.pending.contains(chat_id) {
        assert(h1.pending[h.pending.len() as int] == chat_id);
    }
    crate::seqs::lemma_find_put_where(h.from, anchor_is(chat_id), (chat_id, 0));
    let e = h.exhausted.filter(not_id(chat_id));
    if e.contains(chat_id) {
        let k = choose|k: int| 0 <= k < e.len() && e[k] == chat_id;
        assert(not_id(chat_id)(e[k]));
    }
}

/// A history reply ends the request in flight for the chat.
pub proof fn law_finish_ends_request(h: HistoryView, chat_id: i64, inserted: Seq<i64>, chat_empty: bool)
    requires
        unique_by(h.from, anchor_key()),
    ensures
        !finish_spec(h, chat_id, inserted, chat_empty).pending.contains(chat_id),
        anchor_of(finish_spec(h, chat_id, inserted, chat_empty).from, chat_id) is None,
{
    broadcast use vstd::seq_lib::group_filter_ensures;
    let p = h.pending.filter(not_id(chat_id));
    if p.contains(chat_id) {
        let k = choose|k: int| 0 <= k < p.len() && p[k] == chat_id;
        assert(not_id(chat_id)(p[k]));
    }
    lemma_remove_where(h.from, anchor_key(), anchor_is(chat_id), chat_id);
}

} // verus!
