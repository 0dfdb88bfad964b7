//! Local chat pins for the desktop shell.
//!
//! These are not Telegram pins. They live in
//! `$XDG_DATA_HOME/ad.neko.mithka.gpui/local-pins.json`, keyed by the
//! canonical database directory. The chat list sorts them ahead of TDLib's
//! `chatPosition.order`, which already puts server pins first among chats
//! that are not pinned here. Nothing here sends `toggleChatIsPinned`.

use vstd::prelude::*;
use crate::seqs::{first_where, is_first, lemma_first_exists, lemma_first_where_found, lemma_first_where_none};
use crate::textutil::{join_relative, join_relative_spec, str_eq};

verus! {

/// The schema version written to the file.
pub const PINS_SCHEMA_VERSION: u32 = 1;

/// The pins file, relative to the data directory.
pub const PINS_FILE: &'static str = "ad.neko.mithka.gpui/local-pins.json";

/// The pinned chats of every database the file knows, most recent first,
/// and the database this library works on.
pub struct PinLibrary {
    database_key: String,
    sessions: Vec<(String, Vec<i64>)>,
}

pub struct PinLibraryView {
    pub database_key: Seq<char>,
    pub sessions: Seq<(Seq<char>, Seq<i64>)>,
}

pub open spec fn pin_sessions_view(v: Seq<(String, Vec<i64>)>) -> Seq<(Seq<char>, Seq<i64>)> {
    v.map_values(|e: (String, Vec<i64>)| (e.0@, e.1@))
}

impl View for PinLibrary {
    type V = PinLibraryView;

    closed spec fn view(&self) -> PinLibraryView {
        PinLibraryView { database_key: self.database_key@, sessions: pin_sessions_view(self.sessions@) }
    }
}

/// No database appears twice, as in the file's map.
pub open spec fn pin_keys_unique(s: Seq<(Seq<char>, Seq<i64>)>) -> bool {
    forall|i: int, j: int| 0 <= i < j < s.len() ==> (#[trigger] s[i]).0 != (#[trigger] s[j]).0
}

impl PinLibrary {
    pub closed spec fn wf(&self) -> bool {
        pin_keys_unique(self@.sessions)
    }

    /// A well-formed library holds each database once, which the laws on
    /// its view ask for.
    pub proof fn lemma_wf_keys_unique(&self)
        requires
            self.wf(),
        ensures
            pin_keys_unique(self@.sessions),
    {
    }
}

pub open spec fn pin_key_is(key: Seq<char>) -> spec_fn((Seq<char>, Seq<i64>)) -> bool {
    |e: (Seq<char>, Seq<i64>)| e.0 == key
}

pub open spec fn is_chat(chat_id: i64) -> spec_fn(i64) -> bool {
    |c: i64| c == chat_id
}

/// The pinned chats of the library's database, most recent first.
pub open spec fn pinned_spec(v: PinLibraryView) -> Seq<i64> {
    match first_where(v.sessions, pin_key_is(v.database_key)) {
        Some(i) => v.sessions[i].1,
        None => Seq::empty(),
    }
}

/// The library with the pins of its database set to `ids`.
pub open spec fn with_pins(v: PinLibraryView, ids: Seq<i64>) -> PinLibraryView {
    match first_where(v.sessions, pin_key_is(v.database_key)) {
        Some(i) => PinLibraryView { sessions: v.sessions.update(i, (v.database_key, ids)), ..v },
        None => PinLibraryView { sessions: v.sessions.push((v.database_key, ids)), ..v },
    }
}

/// `Some(0)` is the most recently pinned chat; `None` is not pinned.
pub open spec fn rank_spec(v: PinLibraryView, chat_id: i64) -> Option<int> {
    first_where(pinned_spec(v), is_chat(chat_id))
}

pub open spec fn toggle_spec(v: PinLibraryView, chat_id: i64) -> (PinLibraryView, bool) {
    let ids = pinned_spec(v);
    match first_where(ids, is_chat(chat_id)) {
        Some(k) => (with_pins(v, ids.remove(k)), false),
        None => (with_pins(v, ids.insert(0, chat_id)), true),
    }
}

/// Sort key that places pinned chats before every other chat, the most
/// recent pin first. Unpinned chats share one key so that a stable sort
/// keeps TDLib's order, server pins included.
pub open spec fn pin_sort_key_spec(v: PinLibraryView, chat_id: i64) -> (u8, int) {
    match rank_spec(v, chat_id) {
        Some(r) => (0, r),
        None => (1, 0),
    }
}

impl PinLibrary {
    /// A library for one database, before any file is read.
    pub fn new(database_key: &str) -> (l: Self)
        ensures
            l.wf(),
            l@.database_key == database_key@,
            l@.sessions.len() == 0,
    {
        PinLibrary { database_key: database_key.to_owned(), sessions: Vec::new() }
    }

    /// Sets the pins of one database as the file holds them, in place of
    /// any pins already set for that database.
    pub fn restore_session(&mut self, key: String, chat_ids: Vec<i64>)
        requires
            old(self).wf(),
        ensures
            final(self).wf(),
            final(self)@.database_key == old(self)@.database_key,
            final(self)@.sessions == (match first_where(old(self)@.sessions, pin_key_is(key@)) {
                Some(i) => old(self)@.sessions.update(i, (key@, chat_ids@)),
                None => old(self)@.sessions.push((key@, chat_ids@)),
            }),
    {
        let ghost v = self@.sessions;
        let ghost p = pin_key_is(key@);
        let mut i: usize = 0;
        while i < self.sessions.len()
            invariant
                i <= self.sessions.len(),
                v == pin_sessions_view(self.sessions@),
                v == old(self)@.sessions,
                self@.database_key == old(self)@.database_key,
                pin_keys_unique(v),
                p == pin_key_is(key@),
                forall|j: int| 0 <= j < i ==> !p(#[trigger] v[j]),
            decreases self.sessions.len() - i,
        {
            if str_eq(self.sessions[i].0.as_str(), key.as_str()) {
                proof {
                    assert(p(v[i as int]));
                    lemma_first_where_found(v, p, i as int);
                }
                let ghost kv = key@;
                let ghost iv = chat_ids@;
                self.sessions.set(i, (key, chat_ids));
                assert(pin_sessions_view(self.sessions@) =~= v.update(i as int, (kv, iv)));
                return;
            }
            assert(!p(v[i as int]));
            i += 1;
        }
        proof {
            lemma_first_where_none(v, p);
        }
        let ghost kv = key@;
        let ghost iv = chat_ids@;
        self.sessions.push((key, chat_ids));
        assert(pin_sessions_view(self.sessions@) =~= v.push((kv, iv)));
        assert forall|j: int| 0 <= j < v.len() implies (#[trigger] v[j]).0 != kv by {
            assert(!p(v[j]));
        }
    }

    /// Every database's pins, for writing the file.
    pub fn sessions(&self) -> (r: &[(String, Vec<i64>)])
        ensures
            pin_sessions_view(r@) == self@.sessions,
    {
        self.sessions.as_slice()
    }

    fn record_index(&self) -> (r: Option<usize>)
        ensures
            match r {
                Some(i) => first_where(self@.sessions, pin_key_is(self@.database_key)) == Some(i as int)
                    && i < self.sessions.len(),
                None => first_where(self@.sessions, pin_key_is(self@.database_key)) is None,
            },
    {
        let ghost v = self@.sessions;
        let ghost p = pin_key_is(self@.database_key);
        let mut i: usize = 0;
        while i < self.sessions.len()
            invariant
                i <= self.sessions.len(),
                v == pin_sessions_view(self.sessions@),
                p == pin_key_is(self@.database_key),
                forall|j: int| 0 <= j < i ==> !p(#[trigger] v[j]),
            decreases self.sessions.len() - i,
        {
            if str_eq(self.sessions[i].0.as_str(), self.database_key.as_str()) {
                proof {
                    assert(p(v[i as int]));
                    lemma_first_where_found(v, p, i as int);
                }
                return Some(i);
            }
            assert(!p(v[i as int]));
            i += 1;
        }
        proof {
            lemma_first_where_none(v, p);
        }
        None
    }

    /// The pinned chats of this library's database, most recent first.
    pub fn pinned(&self) -> (r: &[i64])
        ensures
            r@ == pinned_spec(self@),
    {
        match self.record_index() {
            Some(i) => self.sessions[i].1.as_slice(),
            None => {
                let r: &[i64] = &[];
                assert(r@ =~= Seq::<i64>::empty());
                r
            },
        }
    }

    /// `Some(0)` is the most recently pinned chat. `None` is not pinned.
    pub fn rank(&self, chat_id: i64) -> (r: Option<usize>)
        ensures
            match r {
                Some(k) => rank_spec(self@, chat_id) == Some(k as int),
                None => rank_spec(self@, chat_id) is None,
            },
    {
        let ids = self.pinned();
        position(ids, chat_id)
    }

    pub fn is_pinned(&self, chat_id: i64) -> (r: bool)
        ensures
            r == rank_spec(self@, chat_id) is Some,
    {
        self.rank(chat_id).is_some()
    }

    /// Pins the chat ahead of every other pin, or unpins it. Returns
    /// whether the chat is pinned after the toggle.
    pub fn toggle(&mut self, chat_id: i64) -> (r: bool)
        requires
            old(self).wf(),
        ensures
            final(self).wf(),
            (final(self)@, r) == toggle_spec(old(self)@, chat_id),
    {
        let mut ids = copy_ids(self.pinned());
        let now = match position(ids.as_slice(), chat_id) {
            Some(k) => {
                ids.remove(k);
                false
            },
            None => {
                ids.insert(0, chat_id);
                true
            },
        };
        let ghost v = self@.sessions;
        let ghost key = self@.database_key;
        let k = self.database_key.clone();
        let ghost iv = ids@;
        match self.record_index() {
            Some(i) => {
                self.sessions.set(i, (k, ids));
                assert(pin_sessions_view(self.sessions@) =~= v.update(i as int, (key, iv)));
            },
            None => {
                self.sessions.push((k, ids));
                assert(pin_sessions_view(self.sessions@) =~= v.push((key, iv)));
                assert forall|j: int| 0 <= j < v.len() implies (#[trigger] v[j]).0 != key by {
                    if v[j].0 == key {
                        lemma_first_exists(v, pin_key_is(key), j);
                    }
                }
            },
        }
        now
    }
}

fn copy_ids(s: &[i64]) -> (r: Vec<i64>)
    ensures
        r@ == s@,
{
    let mut r: Vec<i64> = Vec::new();
    let mut i: usize = 0;
    while i < s.len()
        invariant
            i <= s.len(),
            r@ == s@.take(i as int),
        decreases s.len() - i,
    {
        r.push(s[i]);
        i += 1;
    }
    assert(s@.take(s.len() as int) =~= s@);
    r
}

/// The first position of `chat_id` in `ids`.
fn position(ids: &[i64], chat_id: i64) -> (r: Option<usize>)
    ensures
        match r {
            Some(k) => first_where(ids@, is_chat(chat_id)) == Some(k as int) && k < ids.len(),
            None => first_where(ids@, is_chat(chat_id)) is None,
        },
{
    let mut k: usize = 0;
    while k < ids.len()
        invariant
            k <= ids.len(),
            forall|j: int| 0 <= j < k ==> !is_chat(chat_id)(#[trigger] ids@[j]),
        decreases ids.len() - k,
    {
        if ids[k] == chat_id {
            proof {
                lemma_first_where_found(ids@, is_chat(chat_id), k as int);
            }
            return Some(k);
        }
        k += 1;
    }
    proof {
        lemma_first_where_none(ids@, is_chat(chat_id));
    }
    None
}

/// Sort key that places local pins before every other chat. A lower rank
/// stays ahead. Unpinned chats share one key so a stable sort keeps
/// TDLib's existing order, including server pins.
pub fn pin_sort_key(pins: &PinLibrary, chat_id: i64) -> (r: (u8, usize))
    ensures
        (r.0, r.1 as int) == pin_sort_key_spec(pins@, chat_id),
{
    match pins.rank(chat_id) {
        Some(rank) => (0, rank),
        None => (1, 0),
    }
}

/// Where the pins file lives under a data directory.
pub fn store_path_in(data_home: &str) -> (r: String)
    ensures
        r@ == join_relative_spec(data_home@, PINS_FILE@),
{
    join_relative(data_home, PINS_FILE)
}

/// After the pins of the library's database are set, they are what the
/// library reads back, and no database appears twice.
pub proof fn lemma_pins_after_put(v: PinLibraryView, ids: Seq<i64>)
    requires
        pin_keys_unique(v.sessions),
    ensures
        pinned_spec(with_pins(v, ids)) == ids,
        pin_keys_unique(with_pins(v, ids).sessions),
        with_pins(v, ids).database_key == v.database_key,
{
    let w = with_pins(v, ids);
    let p = pin_key_is(v.database_key);
    match first_where(v.sessions, p) {
        Some(i) => {
            crate::seqs::lemma_first_where_same(v.sessions, p, w.sessions, p);
            assert forall|a: int, b: int| 0 <= a < b < w.sessions.len() implies (#[trigger] w.sessions[a]).0
                != (#[trigger] w.sessions[b]).0 by {
                assert(v.sessions[a].0 == w.sessions[a].0);
                assert(v.sessions[b].0 == w.sessions[b].0);
            }
        },
        None => {
            let k = v.sessions.len() as int;
            assert forall|j: int| 0 <= j < k implies !p(#[trigger] w.sessions[j]) by {
                assert(w.sessions[j] == v.sessions[j]);
                if p(v.sessions[j]) {
                    lemma_first_exists(v.sessions, p, j);
                }
            }
            assert(is_first(w.sessions, p, k));
            lemma_first_where_found(w.sessions, p, k);
        },
    }
}

/// No chat is pinned twice.
pub open spec fn pins_unique(ids: Seq<i64>) -> bool {
    forall|a: int, b: int| 0 <= a < b < ids.len() ==> ids[a] != ids[b]
}

/// A toggle answers whether the chat is pinned afterwards, which is the
/// opposite of before; a chat it pins becomes the most recent pin (rank 0).
/// The answer is exact when no chat is pinned twice.
pub proof fn law_toggle_pin(v: PinLibraryView, chat_id: i64)
    requires
        pin_keys_unique(v.sessions),
    ensures
        toggle_spec(v, chat_id).1 == (rank_spec(v, chat_id) is None),
        toggle_spec(v, chat_id).1 ==> rank_spec(toggle_spec(v, chat_id).0, chat_id) == Some(0int),
        pins_unique(pinned_spec(v)) ==> (rank_spec(toggle_spec(v, chat_id).0, chat_id) is Some
            == toggle_spec(v, chat_id).1),
        pin_keys_unique(toggle_spec(v, chat_id).0.sessions),
{
    let ids = pinned_spec(v);
    let p = is_chat(chat_id);
    match first_where(ids, p) {
        Some(k) => {
            let t = ids.remove(k);
            lemma_pins_after_put(v, t);
            let k0 = choose|k0: int| is_first(ids, p, k0);
            assert(is_first(ids, p, k0));
            if pins_unique(ids) {
                assert forall|j: int| 0 <= j < t.len() implies !p(#[trigger] t[j]) by {
                    if j < k {
                        assert(t[j] == ids[j]);
                    } else {
                        assert(t[j] == ids[j + 1]);
                    }
                }
                lemma_first_where_none(t, p);
            }
        },
        None => {
            let t = ids.insert(0, chat_id);
            lemma_pins_after_put(v, t);
            assert(is_first(t, p, 0));
            lemma_first_where_found(t, p, 0);
        },
    }
}

/// Pinning a chat that was not pinned and unpinning it again leaves the
/// pins as they were.
pub proof fn law_toggle_pin_twice_restores(v: PinLibraryView, chat_id: i64)
    requires
        pin_keys_unique(v.sessions),
        rank_spec(v, chat_id) is None,
    ensures
        pinned_spec(toggle_spec(toggle_spec(v, chat_id).0, chat_id).0) == pinned_spec(v),
        toggle_spec(toggle_spec(v, chat_id).0, chat_id).1 == false,
{
    law_toggle_pin(v, chat_id);
    let ids = pinned_spec(v);
    let t = ids.insert(0, chat_id);
    let v1 = toggle_spec(v, chat_id).0;
    lemma_pins_after_put(v, t);
    assert(pinned_spec(v1) == t);
    assert(is_first(t, is_chat(chat_id), 0));
    lemma_first_where_found(t, is_chat(chat_id), 0);
    law_toggle_pin(v1, chat_id);
    lemma_pins_after_put(v1, t.remove(0));
    assert(t.remove(0) =~= ids);
}

/// Sorting by `pin_sort_key` puts every pinned chat ahead of every chat
/// that is not pinned, orders pinned chats by rank, and gives all unpinned
/// chats one key.
pub proof fn law_pins_sort_first(v: PinLibraryView, a: i64, b: i64)
    ensures
        rank_spec(v, a) is Some && rank_spec(v, b) is None ==> pin_sort_key_spec(v, a).0
            < pin_sort_key_spec(v, b).0,
        rank_spec(v, a) is Some && rank_spec(v, b) is Some ==> pin_sort_key_spec(v, a).0
            == pin_sort_key_spec(v, b).0 && (pin_sort_key_spec(v, a).1 < pin_sort_key_spec(v, b).1
            <==> rank_spec(v, a).unwrap() < rank_spec(v, b).unwrap()),
        rank_spec(v, a) is None && rank_spec(v, b) is None ==> pin_sort_key_spec(v, a)
            == pin_sort_key_spec(v, b),
{
}

/// Where a chat stands among pins that do not repeat: its index, when it is
/// pinned.
proof fn lemma_rank_in_unique(u: Seq<i64>, d: i64)
    requires
        pins_unique(u),
    ensures
        match first_where(u, is_chat(d)) {
            Some(j) => 0 <= j < u.len() && u[j] == d,
            None => forall|j: int| 0 <= j < u.len() ==> u[j] != d,
        },
        forall|j: int| 0 <= j < u.len() && u[j] == d ==> first_where(u, is_chat(d)) == Some(j),
{
    if first_where(u, is_chat(d)) is Some {
        crate::seqs::lemma_first_where_some(u, is_chat(d));
    } else {
        crate::seqs::lemma_first_where_none_all(u, is_chat(d));
        assert forall|j: int| 0 <= j < u.len() implies u[j] != d by {
            assert(!is_chat(d)(u[j]));
        }
    }
    assert forall|j: int| 0 <= j < u.len() && u[j] == d implies first_where(u, is_chat(d)) == Some(j) by {
        assert(is_first(u, is_chat(d), j)) by {
            assert forall|k: int| 0 <= k < j implies !is_chat(d)(#[trigger] u[k]) by {
                assert(u[k] != u[j]);
            }
        }
        lemma_first_where_found(u, is_chat(d), j);
    }
}

/// A toggle keeps the pins free of repeats, and the other chats' ranks
/// follow the toggled one: pinning it puts it first and moves every other
/// pin down by one; unpinning it moves up the pins that were below it and
/// leaves those above it where they were. Whether another chat is pinned
/// does not change.
pub proof fn law_toggle_pin_ranks(v: PinLibraryView, c: i64, d: i64)
    requires
        pin_keys_unique(v.sessions),
        pins_unique(pinned_spec(v)),
        d != c,
    ensures
        pins_unique(pinned_spec(toggle_spec(v, c).0)),
        toggle_spec(v, c).1 ==> rank_spec(toggle_spec(v, c).0, c) == Some(0int),
        !toggle_spec(v, c).1 ==> rank_spec(toggle_spec(v, c).0, c) is None,
        toggle_spec(v, c).1 ==> rank_spec(toggle_spec(v, c).0, d) == (match rank_spec(v, d) {
            Some(r) => Some(r + 1),
            None => None,
        }),
        !toggle_spec(v, c).1 ==> rank_spec(toggle_spec(v, c).0, d) == (match rank_spec(v, d) {
            Some(r) => if r < rank_spec(v, c).unwrap() { Some(r) } else { Some(r - 1) },
            None => None,
        }),
{
    let ids = pinned_spec(v);
    lemma_rank_in_unique(ids, c);
    lemma_rank_in_unique(ids, d);
    match first_where(ids, is_chat(c)) {
        Some(k) => {
            let t = ids.remove(k);
            lemma_pins_after_put(v, t);
            assert forall|a: int, b: int| 0 <= a < b < t.len() implies t[a] != t[b] by {
                let a0 = if a < k { a } else { a + 1 };
                let b0 = if b < k { b } else { b + 1 };
                assert(t[a] == ids[a0] && t[b] == ids[b0]);
            }
            lemma_rank_in_unique(t, c);
            lemma_rank_in_unique(t, d);
            assert forall|j: int| 0 <= j < t.len() implies t[j] != c by {
                let j0 = if j < k { j } else { j + 1 };
                assert(t[j] == ids[j0]);
            }
            match first_where(ids, is_chat(d)) {
                Some(j) => {
                    let j1 = if j < k { j } else { j - 1 };
                    assert(j != k);
                    assert(t[j1] == d);
                },
                None => {
                    assert forall|j: int| 0 <= j < t.len() implies t[j] != d by {
                        let j0 = if j < k { j } else { j + 1 };
                        assert(t[j] == ids[j0]);
                    }
                },
            }
        },
        None => {
            let t = ids.insert(0, c);
            lemma_pins_after_put(v, t);
            assert forall|a: int, b: int| 0 <= a < b < t.len() implies t[a] != t[b] by {
                if a == 0 {
                    assert(t[b] == ids[b - 1]);
                } else {
                    assert(t[a] == ids[a - 1] && t[b] == ids[b - 1]);
                }
            }
            lemma_rank_in_unique(t, c);
            lemma_rank_in_unique(t, d);
            assert(t[0] == c);
            match first_where(ids, is_chat(d)) {
                Some(j) => {
                    assert(t[j + 1] == d);
                },
                None => {
                    assert forall|j: int| 0 <= j < t.len() implies t[j] != d by {
                        if j > 0 {
                            assert(t[j] == ids[j - 1]);
                        }
                    }
                },
            }
        },
    }
}

} // verus!
