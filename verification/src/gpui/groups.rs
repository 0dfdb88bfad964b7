//! Local folder groups for the desktop shell.
//!
//! These are not Telegram folders. They live in
//! `$XDG_DATA_HOME/ad.neko.mithka.gpui/local-groups.json`. Each copied TDLib
//! database has its own list, keyed by the canonical database directory.
//!
//! Schema version 2: a group is a name plus nested Telegram lists. `Main` is
//! the main chat list; `Folder` is a `chatFolderInfo` id from
//! `updateChatFolders`. Version 1 stored chat ids; reading such a file drops
//! them. Chat membership is not inferred.

use vstd::prelude::*;
use crate::rss::store::saturating_next;
use crate::seqs::{first_where, is_first, lemma_first_exists, lemma_first_where_found, lemma_first_where_none};
use crate::textutil::{decimal, join_relative, join_relative_spec, push_char, push_decimal, str_eq, trim, trim_seq};

verus! {

/// The schema version written to the file.
pub const SCHEMA_VERSION: u32 = 2;

/// The store file, relative to the data directory.
pub const GROUPS_FILE: &'static str = "ad.neko.mithka.gpui/local-groups.json";

/// A Telegram list nested inside a local group.
#[derive(Clone, Copy, Debug, PartialEq, Eq, Structural)]
pub enum NestedFolder {
    /// The main chat list (`chatListMain`).
    Main,
    /// A folder id from `updateChatFolders`.
    Folder { id: i32 },
}

impl NestedFolder {
    /// `None` is the main list, which is what selecting no folder loads.
    pub fn telegram_id(self) -> (r: Option<i32>)
        ensures
            r == (match self {
                NestedFolder::Main => None,
                NestedFolder::Folder { id } => Some(id),
            }),
    {
        match self {
            NestedFolder::Main => None,
            NestedFolder::Folder { id } => Some(id),
        }
    }

    /// Whether this is the list that is active, `None` being the main list.
    pub fn matches(self, active: Option<i32>) -> (r: bool)
        ensures
            r == (match self {
                NestedFolder::Main => active is None,
                NestedFolder::Folder { id } => active == Some(id),
            }),
    {
        match (self, active) {
            (NestedFolder::Main, None) => true,
            (NestedFolder::Folder { id }, Some(a)) => id == a,
            _ => false,
        }
    }
}

#[derive(Clone, Debug, PartialEq, Eq)]
pub struct LocalGroup {
    pub id: String,
    pub name: String,
    pub folders: Vec<NestedFolder>,
}

pub struct LocalGroupView {
    pub id: Seq<char>,
    pub name: Seq<char>,
    pub folders: Seq<NestedFolder>,
}

impl View for LocalGroup {
    type V = LocalGroupView;

    open spec fn view(&self) -> LocalGroupView {
        LocalGroupView { id: self.id@, name: self.name@, folders: self.folders@ }
    }
}

impl LocalGroup {
    fn copy(&self) -> (r: LocalGroup)
        ensures
            r@ == self@,
    {
        LocalGroup { id: self.id.clone(), name: self.name.clone(), folders: self.folders.clone() }
    }
}

/// The groups of one database and the last number used for a group id.
#[derive(Clone, Debug)]
pub struct SessionRecord {
    pub next_id: u64,
    pub groups: Vec<LocalGroup>,
}

pub struct SessionView {
    pub next_id: u64,
    pub groups: Seq<LocalGroupView>,
}

pub open spec fn groups_view(v: Seq<LocalGroup>) -> Seq<LocalGroupView> {
    v.map_values(|g: LocalGroup| g@)
}

impl View for SessionRecord {
    type V = SessionView;

    open spec fn view(&self) -> SessionView {
        SessionView { next_id: self.next_id, groups: groups_view(self.groups@) }
    }
}

/// The groups of every database the file knows, and the database this
/// library works on.
pub struct GroupLibrary {
    database_key: String,
    sessions: Vec<(String, SessionRecord)>,
}

pub struct LibraryView {
    pub database_key: Seq<char>,
    pub sessions: Seq<(Seq<char>, SessionView)>,
}

pub open spec fn sessions_view(v: Seq<(String, SessionRecord)>) -> Seq<(Seq<char>, SessionView)> {
    v.map_values(|e: (String, SessionRecord)| (e.0@, e.1@))
}

impl View for GroupLibrary {
    type V = LibraryView;

    closed spec fn view(&self) -> LibraryView {
        LibraryView { database_key: self.database_key@, sessions: sessions_view(self.sessions@) }
    }
}

/// No database appears twice, as in the file's map.
pub open spec fn keys_unique(s: Seq<(Seq<char>, SessionView)>) -> bool {
    forall|i: int, j: int| 0 <= i < j < s.len() ==> (#[trigger] s[i]).0 != (#[trigger] s[j]).0
}

impl GroupLibrary {
    pub closed spec fn wf(&self) -> bool {
        keys_unique(self@.sessions)
    }

    /// A well-formed library holds each database once, which the laws on
    /// its view ask for.
    pub proof fn lemma_wf_keys_unique(&self)
        requires
            self.wf(),
        ensures
            keys_unique(self@.sessions),
    {
    }
}

pub open spec fn has_key(key: Seq<char>) -> spec_fn((Seq<char>, SessionView)) -> bool {
    |e: (Seq<char>, SessionView)| e.0 == key
}

pub open spec fn group_has_id(id: Seq<char>) -> spec_fn(LocalGroupView) -> bool {
    |g: LocalGroupView| g.id == id
}

pub open spec fn group_lacks_id(id: Seq<char>) -> spec_fn(LocalGroupView) -> bool {
    |g: LocalGroupView| g.id != id
}

/// The record of the library's database, if the file has one.
pub open spec fn session_of(v: LibraryView) -> Option<SessionView> {
    match first_where(v.sessions, has_key(v.database_key)) {
        Some(i) => Some(v.sessions[i].1),
        None => None,
    }
}

/// The record of the library's database, or an empty one.
pub open spec fn session_or_default(v: LibraryView) -> SessionView {
    match session_of(v) {
        Some(r) => r,
        None => SessionView { next_id: 0, groups: Seq::empty() },
    }
}

/// The library with the record of its database set to `r`: replaced where
/// the file has one, added at the end otherwise.
pub open spec fn with_session(v: LibraryView, r: SessionView) -> LibraryView {
    match first_where(v.sessions, has_key(v.database_key)) {
        Some(i) => LibraryView { sessions: v.sessions.update(i, (v.database_key, r)), ..v },
        None => LibraryView { sessions: v.sessions.push((v.database_key, r)), ..v },
    }
}

/// The groups of the library's database, in the order they were created.
pub open spec fn groups_spec(v: LibraryView) -> Seq<LocalGroupView> {
    session_or_default(v).groups
}

pub open spec fn create_spec(v: LibraryView, name: Seq<char>) -> (LibraryView, Option<Seq<char>>) {
    let t = trim_seq(name);
    if t.len() == 0 {
        (v, None)
    } else {
        let r = session_or_default(v);
        let n = saturating_next(r.next_id);
        let id = seq!['g'] + decimal(n as nat);
        (
            with_session(
                v,
                SessionView {
                    next_id: n,
                    groups: r.groups.push(LocalGroupView { id, name: t, folders: Seq::empty() }),
                },
            ),
            Some(id),
        )
    }
}

pub open spec fn rename_spec(v: LibraryView, id: Seq<char>, name: Seq<char>) -> (LibraryView, bool) {
    let t = trim_seq(name);
    let r = session_or_default(v);
    if t.len() == 0 {
        (v, false)
    } else {
        match first_where(r.groups, group_has_id(id)) {
            None => (with_session(v, r), false),
            Some(i) => (
                with_session(
                    v,
                    SessionView { groups: r.groups.update(i, LocalGroupView { name: t, ..r.groups[i] }), ..r },
                ),
                true,
            ),
        }
    }
}

pub open spec fn delete_spec(v: LibraryView, id: Seq<char>) -> (LibraryView, bool) {
    let r = session_or_default(v);
    (
        with_session(v, SessionView { groups: r.groups.filter(group_lacks_id(id)), ..r }),
        first_where(r.groups, group_has_id(id)) is Some,
    )
}

pub open spec fn is_folder(f: NestedFolder) -> spec_fn(NestedFolder) -> bool {
    |g: NestedFolder| g == f
}

/// A group's lists after toggling `f`: its first occurrence removed, or
/// `f` added at the end.
pub open spec fn toggled_folders(folders: Seq<NestedFolder>, f: NestedFolder) -> (Seq<NestedFolder>, bool) {
    match first_where(folders, is_folder(f)) {
        Some(k) => (folders.remove(k), false),
        None => (folders.push(f), true),
    }
}

pub open spec fn toggle_folder_spec(v: LibraryView, group_id: Seq<char>, f: NestedFolder) -> (LibraryView, Option<bool>) {
    let r = session_or_default(v);
    match first_where(r.groups, group_has_id(group_id)) {
        None => (with_session(v, r), None),
        Some(i) => {
            let (folders, now) = toggled_folders(r.groups[i].folders, f);
            (
                with_session(
                    v,
                    SessionView { groups: r.groups.update(i, LocalGroupView { folders, ..r.groups[i] }), ..r },
                ),
                Some(now),
            )
        },
    }
}

/// Where the groups file lives under a data directory.
pub fn store_path_in(data_home: &str) -> (r: String)
    ensures
        r@ == join_relative_spec(data_home@, GROUPS_FILE@),
{
    join_relative(data_home, GROUPS_FILE)
}

fn copy_groups(v: &Vec<LocalGroup>) -> (r: Vec<LocalGroup>)
    ensures
        groups_view(r@) == groups_view(v@),
{
    let mut r: Vec<LocalGroup> = Vec::new();
    let mut i: usize = 0;
    while i < v.len()
        invariant
            i <= v.len(),
            groups_view(r@) == groups_view(v@).take(i as int),
        decreases v.len() - i,
    {
        let ghost before = r@;
        r.push(v[i].copy());
        assert(groups_view(r@) =~= groups_view(before).push(v@[i as int]@));
        assert(groups_view(v@).take(i + 1) =~= groups_view(v@).take(i as int).push(v@[i as int]@));
        i += 1;
    }
    assert(groups_view(v@).take(v.len() as int) =~= groups_view(v@));
    r
}

impl GroupLibrary {
    /// A library for one database, before any file is read.
    pub fn new(database_key: &str) -> (l: Self)
        ensures
            l.wf(),
            l@.database_key == database_key@,
            l@.sessions.len() == 0,
    {
        GroupLibrary { database_key: database_key.to_owned(), sessions: Vec::new() }
    }

    /// Sets the record of one database as the file holds it, in place of
    /// any record already set for that database.
    pub fn restore_session(&mut self, key: String, record: SessionRecord)
        requires
            old(self).wf(),
        ensures
            final(self).wf(),
            final(self)@.database_key == old(self)@.database_key,
            final(self)@.sessions == (match first_where(old(self)@.sessions, has_key(key@)) {
                Some(i) => old(self)@.sessions.update(i, (key@, record@)),
                None => old(self)@.sessions.push((key@, record@)),
            }),
    {
        let ghost v = self@.sessions;
        let ghost p = has_key(key@);
        let mut i: usize = 0;
        while i < self.sessions.len()
            invariant
                i <= self.sessions.len(),
                v == sessions_view(self.sessions@),
                v == old(self)@.sessions,
                self@.database_key == old(self)@.database_key,
                keys_unique(v),
                p == has_key(key@),
                forall|j: int| 0 <= j < i ==> !p(#[trigger] v[j]),
            decreases self.sessions.len() - i,
        {
            if str_eq(self.sessions[i].0.as_str(), key.as_str()) {
                proof {
                    assert(p(v[i as int]));
                    lemma_first_where_found(v, p, i as int);
                }
                let ghost kv = key@;
                let ghost rv = record@;
                self.sessions.set(i, (key, record));
                assert(sessions_view(self.sessions@) =~= v.update(i as int, (kv, rv)));
                return;
            }
            assert(!p(v[i as int]));
            i += 1;
        }
        proof {
            lemma_first_where_none(v, p);
        }
        let ghost kv = key@;
        let ghost rv = record@;
        self.sessions.push((key, record));
        assert(sessions_view(self.sessions@) =~= v.push((kv, rv)));
        assert forall|j: int| 0 <= j < v.len() implies (#[trigger] v[j]).0 != kv by {
            assert(!p(v[j]));
        }
    }

    /// Every database's record, for writing the file.
    pub fn sessions(&self) -> (r: &[(String, SessionRecord)])
        ensures
            sessions_view(r@) == self@.sessions,
    {
        self.sessions.as_slice()
    }

    fn record_index(&self) -> (r: Option<usize>)
        ensures
            match r {
                Some(i) => first_where(self@.sessions, has_key(self@.database_key)) == Some(i as int)
                    && i < self.sessions.len(),
                None => first_where(self@.sessions, has_key(self@.database_key)) is None,
            },
    {
        let ghost v = self@.sessions;
        let ghost p = has_key(self@.database_key);
        let mut i: usize = 0;
        while i < self.sessions.len()
            invariant
                i <= self.sessions.len(),
                v == sessions_view(self.sessions@),
                p == has_key(self@.database_key),
                forall|j: int| 0 <= j < i ==> !p(#[trigger] v[j]),
            decreases self.sessions.len() - i,
        {
            if str_eq(self.sessions[i].0.as_str(), self.database_key.as_str()) {
                proof {
                    assert(p(v[i as int]));
                    lemma_first_where_found(v, p, i as int);
                }
                return Some(i);
            }
            assert(!p(v[i as int]));
            i += 1;
        }
        proof {
            lemma_first_where_none(v, p);
        }
        None
    }

    /// A copy of the record of this library's database, or an empty one.
    fn record_copy(&self) -> (r: SessionRecord)
        ensures
            r@ == session_or_default(self@),
    {
        match self.record_index() {
            Some(i) => SessionRecord {
                next_id: self.sessions[i].1.next_id,
                groups: copy_groups(&self.sessions[i].1.groups),
            },
            None => {
                let r = SessionRecord { next_id: 0, groups: Vec::new() };
                assert(r@.groups =~= Seq::<LocalGroupView>::empty());
                r
            },
        }
    }

    /// Stores `rec` as the record of this library's database.
    fn put_record(&mut self, rec: SessionRecord)
        requires
            old(self).wf(),
        ensures
            final(self).wf(),
            final(self)@ == with_session(old(self)@, rec@),
    {
        let ghost v = self@.sessions;
        let ghost key = self@.database_key;
        match self.record_index() {
            Some(i) => {
                let k = self.database_key.clone();
                let ghost rv = rec@;
                self.sessions.set(i, (k, rec));
                assert(sessions_view(self.sessions@) =~= v.update(i as int, (key, rv)));
            },
            None => {
                let k = self.database_key.clone();
                let ghost rv = rec@;
                self.sessions.push((k, rec));
                assert(sessions_view(self.sessions@) =~= v.push((key, rv)));
                assert forall|j: int| 0 <= j < v.len() implies (#[trigger] v[j]).0 != key by {
                    if v[j].0 == key {
                        lemma_first_exists(v, has_key(key), j);
                    }
                }
            },
        }
    }

    /// The groups of this library's database, in the order they were created.
    pub fn groups(&self) -> (r: &[LocalGroup])
        ensures
            groups_view(r@) == groups_spec(self@),
    {
        match self.record_index() {
            Some(i) => self.sessions[i].1.groups.as_slice(),
            None => {
                let r: &[LocalGroup] = &[];
                assert(groups_view(r@) =~= Seq::<LocalGroupView>::empty());
                r
            },
        }
    }

    /// The first group with this id.
    pub fn group(&self, id: &str) -> (r: Option<&LocalGroup>)
        ensures
            match first_where(groups_spec(self@), group_has_id(id@)) {
                Some(i) => r is Some && r.unwrap()@ == groups_spec(self@)[i],
                None => r is None,
            },
    {
        let groups = self.groups();
        match group_index(groups, id) {
            Some(i) => Some(&groups[i]),
            None => None,
        }
    }

    /// Adds a group with the trimmed name and returns its id; a blank name
    /// adds nothing.
    pub fn create(&mut self, name: &str) -> (r: Option<String>)
        requires
            old(self).wf(),
        ensures
            final(self).wf(),
            (final(self)@, match r { Some(id) => Some(id@), None => None }) == create_spec(old(self)@, name@),
    {
        let name = trim(name);
        if name.as_str().is_empty() {
            return None;
        }
        let mut rec = self.record_copy();
        rec.next_id = if rec.next_id < u64::MAX { rec.next_id + 1 } else { rec.next_id };
        let mut id = String::new();
        push_char(&mut id, 'g');
        push_decimal(&mut id, rec.next_id);
        let ghost before = rec.groups@;
        let group = LocalGroup { id: id.clone(), name, folders: Vec::new() };
        assert(group@.folders =~= Seq::<NestedFolder>::empty());
        rec.groups.push(group);
        assert(groups_view(rec.groups@) =~= groups_view(before).push(group@));
        self.put_record(rec);
        Some(id)
    }

    /// Gives a group the trimmed name; a blank name or an unknown id
    /// changes no group.
    pub fn rename(&mut self, id: &str, name: &str) -> (r: bool)
        requires
            old(self).wf(),
        ensures
            final(self).wf(),
            (final(self)@, r) == rename_spec(old(self)@, id@, name@),
    {
        let name = trim(name);
        if name.as_str().is_empty() {
            return false;
        }
        let mut rec = self.record_copy();
        match group_index(rec.groups.as_slice(), id) {
            None => {
                self.put_record(rec);
                false
            },
            Some(i) => {
                let g = LocalGroup { id: rec.groups[i].id.clone(), name, folders: rec.groups[i].folders.clone() };
                assert(g@.folders =~= rec.groups@[i as int]@.folders);
                let ghost before = rec.groups@;
                rec.groups.set(i, g);
                assert(groups_view(rec.groups@) =~= groups_view(before).update(i as int, g@));
                self.put_record(rec);
                true
            },
        }
    }

    /// Removes every group with this id; returns whether there was one.
    pub fn delete(&mut self, id: &str) -> (r: bool)
        requires
            old(self).wf(),
        ensures
            final(self).wf(),
            (final(self)@, r) == delete_spec(old(self)@, id@),
    {
        let rec = self.record_copy();
        let ghost v = groups_view(rec.groups@);
        let ghost p = group_lacks_id(id@);
        let mut kept: Vec<LocalGroup> = Vec::new();
        let mut found = false;
        let mut i: usize = 0;
        proof {
            crate::seqs::lemma_filter_empty(v, p);
        }
        while i < rec.groups.len()
            invariant
                i <= rec.groups.len(),
                v == groups_view(rec.groups@),
                p == group_lacks_id(id@),
                groups_view(kept@) == v.take(i as int).filter(p),
                found == exists|j: int| 0 <= j < i && (#[trigger] v[j]).id == id@,
            decreases rec.groups.len() - i,
        {
            proof {
                crate::seqs::lemma_filter_take_step(v, i as int, p);
            }
            let ghost before = kept@;
            if !str_eq(rec.groups[i].id.as_str(), id) {
                kept.push(rec.groups[i].copy());
                assert(groups_view(kept@) =~= groups_view(before).push(v[i as int]));
            } else {
                found = true;
                assert(v[i as int].id == id@);
            }
            i += 1;
        }
        assert(v.take(v.len() as int) =~= v);
        proof {
            if found {
                let j = choose|j: int| 0 <= j < v.len() && (#[trigger] v[j]).id == id@;
                assert(group_has_id(id@)(v[j]));
                lemma_first_exists(v, group_has_id(id@), j);
            } else {
                assert forall|j: int| 0 <= j < v.len() implies !group_has_id(id@)(#[trigger] v[j]) by {
                    assert(v[j].id != id@);
                }
                lemma_first_where_none(v, group_has_id(id@));
            }
        }
        let next_id = rec.next_id;
        self.put_record(SessionRecord { next_id, groups: kept });
        found
    }

    /// Nests `folder` in a group, or takes it out when it is there already.
    /// Returns whether it is nested afterwards; `None` for an unknown group.
    pub fn toggle_folder(&mut self, group_id: &str, folder: NestedFolder) -> (r: Option<bool>)
        requires
            old(self).wf(),
        ensures
            final(self).wf(),
            (final(self)@, r) == toggle_folder_spec(old(self)@, group_id@, folder),
    {
        let mut rec = self.record_copy();
        match group_index(rec.groups.as_slice(), group_id) {
            None => {
                self.put_record(rec);
                None
            },
            Some(i) => {
                let mut folders = rec.groups[i].folders.clone();
                assert(folders@ =~= rec.groups@[i as int]@.folders);
                let ghost fv = folders@;
                let mut k: usize = 0;
                while k < folders.len() && folders[k] != folder
                    invariant
                        k <= folders.len(),
                        folders@ == fv,
                        forall|j: int| 0 <= j < k ==> !is_folder(folder)(#[trigger] fv[j]),
                    decreases folders.len() - k,
                {
                    k += 1;
                }
                let now = if k < folders.len() {
                    proof {
                        lemma_first_where_found(fv, is_folder(folder), k as int);
                    }
                    folders.remove(k);
                    false
                } else {
                    proof {
                        lemma_first_where_none(fv, is_folder(folder));
                    }
                    folders.push(folder);
                    true
                };
                let g = LocalGroup { id: rec.groups[i].id.clone(), name: rec.groups[i].name.clone(), folders };
                let ghost before = rec.groups@;
                rec.groups.set(i, g);
                assert(groups_view(rec.groups@) =~= groups_view(before).update(i as int, g@));
                self.put_record(rec);
                Some(now)
            },
        }
    }
}

/// The first group with this id, by position.
fn group_index(groups: &[LocalGroup], id: &str) -> (r: Option<usize>)
    ensures
        match r {
            Some(i) => first_where(groups_view(groups@), group_has_id(id@)) == Some(i as int)
                && i < groups.len(),
            None => first_where(groups_view(groups@), group_has_id(id@)) is None,
        },
{
    let ghost v = groups_view(groups@);
    let ghost p = group_has_id(id@);
    let mut i: usize = 0;
    while i < groups.len()
        invariant
            i <= groups.len(),
            v == groups_view(groups@),
            p == group_has_id(id@),
            forall|j: int| 0 <= j < i ==> !p(#[trigger] v[j]),
        decreases groups.len() - i,
    {
        if str_eq(groups[i].id.as_str(), id) {
            proof {
                assert(p(v[i as int]));
                lemma_first_where_found(v, p, i as int);
            }
            return Some(i);
        }
        assert(!p(v[i as int]));
        i += 1;
    }
    proof {
        lemma_first_where_none(v, p);
    }
    None
}

/// After the record of the library's database is set, that record is what
/// the library reads back, and no database appears twice.
pub proof fn lemma_session_after_put(v: LibraryView, r: SessionView)
    requires
        keys_unique(v.sessions),
    ensures
        session_of(with_session(v, r)) == Some(r),
        keys_unique(with_session(v, r).sessions),
        with_session(v, r).database_key == v.database_key,
{
    let w = with_session(v, r);
    let p = has_key(v.database_key);
    match first_where(v.sessions, p) {
        Some(i) => {
            crate::seqs::lemma_first_where_same(v.sessions, p, w.sessions, p);
            assert forall|a: int, b: int| 0 <= a < b < w.sessions.len() implies (#[trigger] w.sessions[a]).0
                != (#[trigger] w.sessions[b]).0 by {
                assert(v.sessions[a].0 == w.sessions[a].0);
                assert(v.sessions[b].0 == w.sessions[b].0);
            }
        },
        None => {
            let k = v.sessions.len() as int;
            assert forall|j: int| 0 <= j < k implies !p(#[trigger] w.sessions[j]) by {
                assert(w.sessions[j] == v.sessions[j]);
                if p(v.sessions[j]) {
                    lemma_first_exists(v.sessions, p, j);
                }
            }
            assert(is_first(w.sessions, p, k));
            lemma_first_where_found(w.sessions, p, k);
        },
    }
}

/// Each list appears at most once.
pub open spec fn no_repeats(s: Seq<NestedFolder>) -> bool {
    forall|a: int, b: int| 0 <= a < b < s.len() ==> s[a] != s[b]
}

proof fn lemma_toggled(folders: Seq<NestedFolder>, f: NestedFolder)
    requires
        no_repeats(folders),
    ensures
        toggled_folders(folders, f).1 == !folders.contains(f),
        toggled_folders(folders, f).0.contains(f) == toggled_folders(folders, f).1,
        no_repeats(toggled_folders(folders, f).0),
        forall|g: NestedFolder| g != f ==> (toggled_folders(folders, f).0.contains(g) == folders.contains(g)),
{
    let (t, now) = toggled_folders(folders, f);
    match first_where(folders, is_folder(f)) {
        Some(k) => {
            let k0 = choose|k0: int| is_first(folders, is_folder(f), k0);
            assert(is_first(folders, is_folder(f), k0));
            assert(folders.contains(f));
            if t.contains(f) {
                let j = choose|j: int| 0 <= j < t.len() && t[j] == f;
                if j < k {
                    assert(folders[j] == f);
                } else {
                    assert(folders[j + 1] == f);
                }
            }
            assert forall|g: NestedFolder| g != f implies (t.contains(g) == folders.contains(g)) by {
                if folders.contains(g) {
                    let j = choose|j: int| 0 <= j < folders.len() && folders[j] == g;
                    if j < k {
                        assert(t[j] == g);
                    } else {
                        assert(j != k);
                        assert(t[j - 1] == g);
                    }
                }
                if t.contains(g) {
                    let j = choose|j: int| 0 <= j < t.len() && t[j] == g;
                    if j < k {
                        assert(folders[j] == g);
                    } else {
                        assert(folders[j + 1] == g);
                    }
                }
            }
            assert forall|a: int, b: int| 0 <= a < b < t.len() implies t[a] != t[b] by {
                let a1 = if a < k { a } else { a + 1 };
                let b1 = if b < k { b } else { b + 1 };
                assert(t[a] == folders[a1] && t[b] == folders[b1]);
            }
        },
        None => {
            if folders.contains(f) {
                let j = choose|j: int| 0 <= j < folders.len() && folders[j] == f;
                assert(is_folder(f)(folders[j]));
                lemma_first_exists(folders, is_folder(f), j);
            }
            assert(t[t.len() - 1] == f);
            assert forall|g: NestedFolder| g != f implies (t.contains(g) == folders.contains(g)) by {
                if folders.contains(g) {
                    let j = choose|j: int| 0 <= j < folders.len() && folders[j] == g;
                    assert(t[j] == g);
                }
                if t.contains(g) {
                    let j = choose|j: int| 0 <= j < t.len() && t[j] == g;
                    assert(folders[j] == g);
                }
            }
            assert forall|a: int, b: int| 0 <= a < b < t.len() implies t[a] != t[b] by {
                if b == t.len() - 1 {
                    assert(folders[a] == t[a]);
                } else {
                    assert(folders[a] == t[a] && folders[b] == t[b]);
                }
            }
        },
    }
}

/// Toggling a list into a group whose lists do not repeat: the answer is
/// whether the list is nested afterwards, which is the opposite of before;
/// every other list keeps its place in or out of the group; and the lists
/// still do not repeat.
pub proof fn law_toggle_folder_flips_membership(v: LibraryView, group_id: Seq<char>, f: NestedFolder, i: int)
    requires
        keys_unique(v.sessions),
        first_where(groups_spec(v), group_has_id(group_id)) == Some(i),
        no_repeats(groups_spec(v)[i].folders),
    ensures
        toggle_folder_spec(v, group_id, f).1 == Some(!groups_spec(v)[i].folders.contains(f)),
        first_where(groups_spec(toggle_folder_spec(v, group_id, f).0), group_has_id(group_id)) == Some(i),
        groups_spec(toggle_folder_spec(v, group_id, f).0)[i].folders.contains(f)
            == !groups_spec(v)[i].folders.contains(f),
        forall|g: NestedFolder| g != f ==> (groups_spec(toggle_folder_spec(v, group_id, f).0)[i].folders.contains(g)
            == groups_spec(v)[i].folders.contains(g)),
        no_repeats(groups_spec(toggle_folder_spec(v, group_id, f).0)[i].folders),
        keys_unique(toggle_folder_spec(v, group_id, f).0.sessions),
{
    let r = session_or_default(v);
    let (folders, now) = toggled_folders(r.groups[i].folders, f);
    let r1 = SessionView { groups: r.groups.update(i, LocalGroupView { folders, ..r.groups[i] }), ..r };
    lemma_session_after_put(v, r1);
    lemma_toggled(r.groups[i].folders, f);
    crate::seqs::lemma_first_where_same(r.groups, group_has_id(group_id), r1.groups, group_has_id(group_id));
}

/// Toggling a list in and out again leaves the group as it was, when the
/// list was not nested to begin with.
pub proof fn law_toggle_folder_twice_restores(v: LibraryView, group_id: Seq<char>, f: NestedFolder, i: int)
    requires
        keys_unique(v.sessions),
        first_where(groups_spec(v), group_has_id(group_id)) == Some(i),
        no_repeats(groups_spec(v)[i].folders),
        !groups_spec(v)[i].folders.contains(f),
    ensures
        groups_spec(toggle_folder_spec(toggle_folder_spec(v, group_id, f).0, group_id, f).0) == groups_spec(v),
        toggle_folder_spec(toggle_folder_spec(v, group_id, f).0, group_id, f).1 == Some(false),
{
    law_toggle_folder_flips_membership(v, group_id, f, i);
    let v1 = toggle_folder_spec(v, group_id, f).0;
    law_toggle_folder_flips_membership(v1, group_id, f, i);
    let r = session_or_default(v);
    let fs = r.groups[i].folders;
    if first_where(fs, is_folder(f)) is Some {
        let k = choose|k: int| is_first(fs, is_folder(f), k);
        assert(is_first(fs, is_folder(f), k));
        assert(fs.contains(f));
    }
    let r1 = session_or_default(v1);
    let fs1 = r1.groups[i].folders;
    assert(fs1 == fs.push(f));
    assert(is_first(fs1, is_folder(f), fs.len() as int)) by {
        assert forall|j: int| 0 <= j < fs.len() implies !is_folder(f)(#[trigger] fs1[j]) by {
            assert(fs1[j] == fs[j]);
            if fs[j] == f {
                assert(fs.contains(f));
            }
        }
    }
    lemma_first_where_found(fs1, is_folder(f), fs.len() as int);
    assert(fs1.remove(fs.len() as int) =~= fs);
    let v2 = toggle_folder_spec(v1, group_id, f).0;
    let r2 = session_or_default(v2);
    assert(r2.groups =~= r.groups);
}

} // verus!
