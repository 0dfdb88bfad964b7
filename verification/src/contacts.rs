//! The desktop session's contact book: display names of the users it has
//! seen, the contact list in TDLib's order, and the details shown for each
//! contact.

use vstd::prelude::*;
use crate::chats::not_id;
use crate::seqs::{
    find_where, first_where, lemma_filter_empty, lemma_filter_take_step, lemma_filter_unique,
    lemma_first_where_found, lemma_first_where_none, lemma_first_where_some, lemma_put_where,
    lemma_remove_where, put_where, remove_where, unique_by,
};
use crate::shell::{opt_text, ContactItem};
use crate::textutil::{int_text, push_int, str_eq};

verus! {

/// What the contact panel shows of one contact.
pub struct ContactMeta {
    pub name: String,
    pub username: String,
    pub avatar: Option<String>,
}

pub struct MetaView {
    pub name: Seq<char>,
    pub username: Seq<char>,
    pub avatar: Option<Seq<char>>,
}

impl View for ContactMeta {
    type V = MetaView;

    open spec fn view(&self) -> MetaView {
        MetaView { name: self.name@, username: self.username@, avatar: opt_text(self.avatar) }
    }
}

impl ContactMeta {
    /// A copy with the same fields.
    pub fn copy(&self) -> (r: ContactMeta)
        ensures
            r@ == self@,
    {
        ContactMeta {
            name: self.name.clone(),
            username: self.username.clone(),
            avatar: match &self.avatar {
                Some(a) => Some(a.clone()),
                None => None,
            },
        }
    }
}

/// One row of the contact panel.
pub struct ContactRow {
    pub user_id: i64,
    pub name: Seq<char>,
    pub username: Seq<char>,
    pub avatar: Option<Seq<char>>,
}

impl View for ContactItem {
    type V = ContactRow;

    open spec fn view(&self) -> ContactRow {
        ContactRow {
            user_id: self.user_id,
            name: self.name@,
            username: self.username@,
            avatar: opt_text(self.avatar),
        }
    }
}

/// The fields of a TDLib `user` object the book keeps.
pub struct UserInfo {
    pub id: i64,
    /// First and last name joined, empty when the user has none.
    pub name: String,
    /// The active username without `@`, empty when there is none.
    pub username: String,
    /// `is_contact`, when it is a bool.
    pub is_contact: Option<bool>,
    /// `profile_photo` is there and null.
    pub photo_null: bool,
}

pub struct ContactBook {
    users: Vec<(i64, String)>,
    contact_ids: Vec<i64>,
    meta: Vec<(i64, ContactMeta)>,
}

#[verifier::ext_equal]
pub struct ContactBookView {
    pub users: Seq<(i64, Seq<char>)>,
    pub contacts: Seq<i64>,
    pub meta: Seq<(i64, MetaView)>,
}

pub open spec fn users_view(v: Seq<(i64, String)>) -> Seq<(i64, Seq<char>)> {
    v.map_values(|e: (i64, String)| (e.0, e.1@))
}

pub open spec fn meta_view(v: Seq<(i64, ContactMeta)>) -> Seq<(i64, MetaView)> {
    v.map_values(|e: (i64, ContactMeta)| (e.0, e.1@))
}

impl View for ContactBook {
    type V = ContactBookView;

    closed spec fn view(&self) -> ContactBookView {
        ContactBookView {
            users: users_view(self.users@),
            contacts: self.contact_ids@,
            meta: meta_view(self.meta@),
        }
    }
}

pub open spec fn user_key() -> spec_fn((i64, Seq<char>)) -> i64 {
    |e: (i64, Seq<char>)| e.0
}

pub open spec fn user_is(id: i64) -> spec_fn((i64, Seq<char>)) -> bool {
    |e: (i64, Seq<char>)| e.0 == id
}

pub open spec fn meta_key() -> spec_fn((i64, MetaView)) -> i64 {
    |e: (i64, MetaView)| e.0
}

pub open spec fn meta_is(id: i64) -> spec_fn((i64, MetaView)) -> bool {
    |e: (i64, MetaView)| e.0 == id
}

/// Each user has one name and each contact one set of details.
pub open spec fn book_wf(b: ContactBookView) -> bool {
    unique_by(b.users, user_key()) && unique_by(b.meta, meta_key())
}

/// The details of a contact, if the book has them.
pub open spec fn meta_of(meta: Seq<(i64, MetaView)>, id: i64) -> Option<MetaView> {
    match find_where(meta, meta_is(id)) {
        Some(e) => Some(e.1),
        None => None,
    }
}

pub open spec fn empty_meta() -> MetaView {
    MetaView { name: Seq::empty(), username: Seq::empty(), avatar: None }
}

pub open spec fn meta_or_empty(meta: Seq<(i64, MetaView)>, id: i64) -> MetaView {
    match meta_of(meta, id) {
        Some(m) => m,
        None => empty_meta(),
    }
}

/// The name a user is shown by: the name, else the username, else
/// `User N`.
pub open spec fn display_name(name: Seq<char>, username: Seq<char>, id: i64) -> Seq<char> {
    if name.len() > 0 {
        name
    } else if username.len() > 0 {
        username
    } else {
        "User "@ + int_text(id as int)
    }
}

/// The contact list and details after a user's `is_contact`, and whether
/// the list changed: a new contact joins at the end, a former one leaves
/// with its details.
pub open spec fn membership(b: ContactBookView, u: UserInfo) -> (Seq<i64>, Seq<(i64, MetaView)>, bool) {
    match u.is_contact {
        Some(true) => if !b.contacts.contains(u.id) {
            (b.contacts.push(u.id), b.meta, true)
        } else {
            (b.contacts, b.meta, false)
        },
        Some(false) => if b.contacts.contains(u.id) {
            (b.contacts.filter(not_id(u.id)), remove_where(b.meta, meta_is(u.id)), true)
        } else {
            (b.contacts, b.meta, false)
        },
        None => (b.contacts, b.meta, false),
    }
}

/// The book after a `user` object, and whether the contact panel changed.
/// A non-empty name is remembered; `is_contact` adds or removes the user;
/// a contact's details take its display name and username, and lose the
/// avatar when the profile photo is null.
pub open spec fn note_contact_spec(b: ContactBookView, u: UserInfo) -> (ContactBookView, bool) {
    let users = if u.name@.len() > 0 { put_where(b.users, user_is(u.id), (u.id, u.name@)) } else { b.users };
    let (contacts, meta, joined) = membership(b, u);
    if !contacts.contains(u.id) {
        (ContactBookView { users, contacts, meta }, joined)
    } else {
        let display = display_name(u.name@, u.username@, u.id);
        let old = meta_or_empty(meta, u.id);
        let renamed = old.name != display || old.username != u.username@;
        let m1 = if renamed { MetaView { name: display, username: u.username@, ..old } } else { old };
        let m2 = if u.photo_null { MetaView { avatar: None, ..m1 } } else { m1 };
        (
            ContactBookView { users, contacts, meta: put_where(meta, meta_is(u.id), (u.id, m2)) },
            joined || renamed || (u.photo_null && old.avatar is Some),
        )
    }
}

pub open spec fn in_ids(ids: Seq<i64>) -> spec_fn((i64, MetaView)) -> bool {
    |e: (i64, MetaView)| ids.contains(e.0)
}

pub open spec fn lacks_meta(meta: Seq<(i64, MetaView)>) -> spec_fn(i64) -> bool {
    |x: i64| meta_of(meta, x) is None
}

/// The panel row of a contact: its details, or `User N` until they come.
pub open spec fn contact_row(meta: Seq<(i64, MetaView)>, id: i64) -> ContactRow {
    match meta_of(meta, id) {
        Some(m) => ContactRow { user_id: id, name: m.name, username: m.username, avatar: m.avatar },
        None => ContactRow { user_id: id, name: "User "@ + int_text(id as int), username: Seq::empty(), avatar: None },
    }
}

pub open spec fn rows_view(v: Seq<ContactItem>) -> Seq<ContactRow> {
    v.map_values(|c: ContactItem| c@)
}

fn user_label(id: i64) -> (r: String)
    ensures
        r@ == "User "@ + int_text(id as int),
{
    let mut s = "User ".to_owned();
    push_int(&mut s, id);
    s
}

fn contains_id(v: &Vec<i64>, id: i64) -> (r: bool)
    ensures
        r == v@.contains(id),
{
    let mut k: usize = 0;
    while k < v.len()
        invariant
            k <= v.len(),
            forall|j: int| 0 <= j < k ==> v@[j] != id,
        decreases v.len() - k,
    {
        if v[k] == id {
            assert(v@[k as int] == id);
            return true;
        }
        k += 1;
    }
    false
}

impl ContactBook {
    pub open spec fn wf(&self) -> bool {
        book_wf(self@)
    }

    pub fn new() -> (b: Self)
        ensures
            b.wf(),
            b@.users.len() == 0 && b@.contacts.len() == 0 && b@.meta.len() == 0,
    {
        let b = ContactBook { users: Vec::new(), contact_ids: Vec::new(), meta: Vec::new() };
        assert(b@.users =~= Seq::<(i64, Seq<char>)>::empty());
        assert(b@.meta =~= Seq::<(i64, MetaView)>::empty());
        b
    }

    /// The contact list, in TDLib's order.
    pub fn contact_ids(&self) -> (r: &[i64])
        ensures
            r@ == self@.contacts,
    {
        self.contact_ids.as_slice()
    }

    /// Whether the user is on the contact list.
    pub fn is_contact(&self, id: i64) -> (r: bool)
        ensures
            r == self@.contacts.contains(id),
    {
        contains_id(&self.contact_ids, id)
    }

    fn user_index(&self, id: i64) -> (r: Option<usize>)
        ensures
            match r {
                Some(i) => first_where(self@.users, user_is(id)) == Some(i as int) && i < self.users.len(),
                None => first_where(self@.users, user_is(id)) is None,
            },
    {
        let ghost v = self@.users;
        let mut i: usize = 0;
        while i < self.users.len()
            invariant
                i <= self.users.len(),
                v == users_view(self.users@),
                forall|j: int| 0 <= j < i ==> !user_is(id)(#[trigger] v[j]),
            decreases self.users.len() - i,
        {
            if self.users[i].0 == id {
                proof {
                    assert(user_is(id)(v[i as int]));
                    lemma_first_where_found(v, user_is(id), i as int);
                }
                return Some(i);
            }
            assert(!user_is(id)(v[i as int]));
            i += 1;
        }
        proof {
            lemma_first_where_none(v, user_is(id));
        }
        None
    }

    fn meta_index(&self, id: i64) -> (r: Option<usize>)
        ensures
            match r {
                Some(i) => first_where(self@.meta, meta_is(id)) == Some(i as int) && i < self.meta.len(),
                None => first_where(self@.meta, meta_is(id)) is None,
            },
    {
        let ghost v = self@.meta;
        let mut i: usize = 0;
        while i < self.meta.len()
            invariant
                i <= self.meta.len(),
                v == meta_view(self.meta@),
                forall|j: int| 0 <= j < i ==> !meta_is(id)(#[trigger] v[j]),
            decreases self.meta.len() - i,
        {
            if self.meta[i].0 == id {
                proof {
                    assert(meta_is(id)(v[i as int]));
                    lemma_first_where_found(v, meta_is(id), i as int);
                }
                return Some(i);
            }
            assert(!meta_is(id)(v[i as int]));
            i += 1;
        }
        proof {
            lemma_first_where_none(v, meta_is(id));
        }
        None
    }

    /// The avatar shown for a contact.
    pub fn contact_avatar_of(&self, id: i64) -> (r: Option<String>)
        ensures
            opt_text(r) == (match meta_of(self@.meta, id) {
                Some(m) => m.avatar,
                None => None,
            }),
    {
        match self.meta_index(id) {
            Some(i) => {
                proof {
                    lemma_first_where_some(self@.meta, meta_is(id));
                }
                match &self.meta[i].1.avatar {
                    Some(a) => Some(a.clone()),
                    None => None,
                }
            },
            None => None,
        }
    }

    /// The names remembered for users.
    pub fn users(&self) -> (r: &[(i64, String)])
        ensures
            crate::shell::users_view(r@) == self@.users,
    {
        self.users.as_slice()
    }

    /// The name remembered for a user.
    pub fn user_name(&self, id: i64) -> (r: Option<&String>)
        ensures
            match r {
                Some(n) => find_where(self@.users, user_is(id)) == Some((id, n@)),
                None => find_where(self@.users, user_is(id)) is None,
            },
    {
        match self.user_index(id) {
            Some(i) => {
                proof {
                    lemma_first_where_some(self@.users, user_is(id));
                }
                Some(&self.users[i].1)
            },
            None => None,
        }
    }

    fn put_user(&mut self, id: i64, name: &String)
        requires
            old(self).wf(),
        ensures
            final(self).wf(),
            final(self)@ == (ContactBookView {
                users: put_where(old(self)@.users, user_is(id), (id, name@)),
                ..old(self)@
            }),
    {
        let ghost v = self@.users;
        proof {
            lemma_put_where(v, user_key(), user_is(id), id, (id, name@));
        }
        match self.user_index(id) {
            Some(i) => {
                self.users.set(i, (id, name.clone()));
                assert(users_view(self.users@) =~= v.update(i as int, (id, name@)));
            },
            None => {
                self.users.push((id, name.clone()));
                assert(users_view(self.users@) =~= v.push((id, name@)));
            },
        }
    }

    fn remove_meta(&mut self, id: i64)
        requires
            old(self).wf(),
        ensures
            final(self).wf(),
            final(self)@ == (ContactBookView { meta: remove_where(old(self)@.meta, meta_is(id)), ..old(self)@ }),
    {
        let ghost v = self@.meta;
        proof {
            lemma_remove_where(v, meta_key(), meta_is(id), id);
        }
        if let Some(i) = self.meta_index(id) {
            self.meta.remove(i);
            assert(meta_view(self.meta@) =~= v.remove(i as int));
        }
    }

    fn store_meta(&mut self, id: i64, m: ContactMeta)
        requires
            old(self).wf(),
        ensures
            final(self).wf(),
            final(self)@ == (ContactBookView {
                meta: put_where(old(self)@.meta, meta_is(id), (id, m@)),
                ..old(self)@
            }),
    {
        let ghost v = self@.meta;
        let ghost mv = m@;
        proof {
            lemma_put_where(v, meta_key(), meta_is(id), id, (id, mv));
        }
        match self.meta_index(id) {
            Some(i) => {
                self.meta.set(i, (id, m));
                assert(meta_view(self.meta@) =~= v.update(i as int, (id, mv)));
            },
            None => {
                self.meta.push((id, m));
                assert(meta_view(self.meta@) =~= v.push((id, mv)));
            },
        }
    }

    fn unlist_contact(&mut self, id: i64)
        ensures
            final(self)@ == (ContactBookView { contacts: old(self)@.contacts.filter(not_id(id)), ..old(self)@ }),
    {
        let ghost l = self.contact_ids@;
        let mut kept: Vec<i64> = Vec::new();
        let mut k: usize = 0;
        proof {
            lemma_filter_empty(l, not_id(id));
        }
        while k < self.contact_ids.len()
            invariant
                k <= self.contact_ids.len(),
                l == self.contact_ids@,
                kept@ == l.take(k as int).filter(not_id(id)),
            decreases self.contact_ids.len() - k,
        {
            proof {
                lemma_filter_take_step(l, k as int, not_id(id));
            }
            if self.contact_ids[k] != id {
                kept.push(self.contact_ids[k]);
            }
            k += 1;
        }
        assert(l.take(l.len() as int) =~= l);
        self.contact_ids = kept;
    }

    /// A `user` object. A non-empty name is remembered; `is_contact` adds
    /// or removes the user; a contact's details take its display name and
    /// username, and lose the avatar when the profile photo is null.
    /// Returns whether the contact panel changed.
    pub fn note_contact(&mut self, u: &UserInfo) -> (changed: bool)
        requires
            old(self).wf(),
        ensures
            final(self).wf(),
            (final(self)@, changed) == note_contact_spec(old(self)@, *u),
    {
        let ghost b = self@;
        let id = u.id;
        if !u.name.as_str().is_empty() {
            self.put_user(id, &u.name);
        }
        let mut changed = false;
        match u.is_contact {
            Some(true) => {
                if !self.is_contact(id) {
                    self.contact_ids.push(id);
                    changed = true;
                }
            },
            Some(false) => {
                if self.is_contact(id) {
                    self.unlist_contact(id);
                    self.remove_meta(id);
                    changed = true;
                }
            },
            None => {},
        }
        let ghost mid = self@;
        assert(mid.contacts == membership(b, *u).0 && mid.meta == membership(b, *u).1 && changed == membership(b, *u).2);
        if !self.is_contact(id) {
            return changed;
        }
        let display: String = if !u.name.as_str().is_empty() {
            u.name.clone()
        } else if !u.username.as_str().is_empty() {
            u.username.clone()
        } else {
            user_label(id)
        };
        assert(display@ == display_name(u.name@, u.username@, id));
        let mut m = match self.meta_index(id) {
            Some(i) => {
                proof {
                    lemma_first_where_some(mid.meta, meta_is(id));
                }
                self.meta[i].1.copy()
            },
            None => ContactMeta { name: String::new(), username: String::new(), avatar: None },
        };
        let ghost old_m = m@;
        assert(old_m == meta_or_empty(mid.meta, id)) by {
            if first_where(mid.meta, meta_is(id)) is None {
                assert(old_m.name =~= Seq::<char>::empty());
                assert(old_m.username =~= Seq::<char>::empty());
            }
        }
        let renamed = !str_eq(m.name.as_str(), display.as_str()) || !str_eq(m.username.as_str(), u.username.as_str());
        if renamed {
            m.name = display;
            m.username = u.username.clone();
            changed = true;
        }
        if u.photo_null {
            if m.avatar.is_some() {
                changed = true;
            }
            m.avatar = None;
        }
        self.store_meta(id, m);
        changed
    }

    /// The panel rows: each contact's details, or `User N` until they come.
    pub fn contacts(&self) -> (r: Vec<ContactItem>)
        ensures
            rows_view(r@) == self@.contacts.map_values(|id: i64| contact_row(self@.meta, id)),
    {
        let ghost want = self@.contacts.map_values(|id: i64| contact_row(self@.meta, id));
        let mut out: Vec<ContactItem> = Vec::new();
        let mut k: usize = 0;
        while k < self.contact_ids.len()
            invariant
                k <= self.contact_ids.len(),
                want == self@.contacts.map_values(|id: i64| contact_row(self@.meta, id)),
                rows_view(out@) == want.take(k as int),
            decreases self.contact_ids.len() - k,
        {
            let id = self.contact_ids[k];
            let row = match self.meta_index(id) {
                Some(i) => {
                    proof {
                        lemma_first_where_some(self@.meta, meta_is(id));
                    }
                    let m = &self.meta[i].1;
                    ContactItem {
                        user_id: id,
                        name: m.name.clone(),
                        username: m.username.clone(),
                        avatar: match &m.avatar {
                            Some(a) => Some(a.clone()),
                            None => None,
                        },
                    }
                },
                None => {
                    let r = ContactItem { user_id: id, name: user_label(id), username: String::new(), avatar: None };
                    assert(r@.username =~= Seq::<char>::empty());
                    r
                },
            };
            assert(row@ == contact_row(self@.meta, id));
            let ghost prev = out@;
            let ghost rv = row@;
            out.push(row);
            assert(rows_view(out@) =~= rows_view(prev).push(rv));
            assert(want[k as int] == rv);
            assert(want.take(k + 1) =~= want.take(k as int).push(want[k as int]));
            k += 1;
        }
        assert(want.take(want.len() as int) =~= want);
        out
    }

    /// A `users` reply to `getContacts`: the list becomes `ids`, details of
    /// users no longer on it are dropped. Returns the ids the book has no
    /// details for, in order.
    pub fn on_users(&mut self, ids: &[i64]) -> (missing: Vec<i64>)
        requires
            old(self).wf(),
        ensures
            final(self).wf(),
            final(self)@ == (ContactBookView {
                contacts: ids@,
                meta: old(self)@.meta.filter(in_ids(ids@)),
                ..old(self)@
            }),
            missing@ == ids@.filter(lacks_meta(old(self)@.meta)),
    {
        let ghost b = self@;
        let mut missing: Vec<i64> = Vec::new();
        let mut k: usize = 0;
        proof {
            lemma_filter_empty(ids@, lacks_meta(b.meta));
        }
        while k < ids.len()
            invariant
                k <= ids.len(),
                self@ == b,
                missing@ == ids@.take(k as int).filter(lacks_meta(b.meta)),
            decreases ids.len() - k,
        {
            proof {
                lemma_filter_take_step(ids@, k as int, lacks_meta(b.meta));
            }
            let id = ids[k];
            if self.meta_index(id).is_none() {
                missing.push(id);
            }
            k += 1;
        }
        assert(ids@.take(ids.len() as int) =~= ids@);
        let mut idv: Vec<i64> = Vec::new();
        let mut k: usize = 0;
        while k < ids.len()
            invariant
                k <= ids.len(),
                idv@ == ids@.take(k as int),
            decreases ids.len() - k,
        {
            idv.push(ids[k]);
            k += 1;
            assert(idv@ =~= ids@.take(k as int));
        }
        assert(ids@.take(ids.len() as int) =~= ids@);
        let mut kept: Vec<(i64, ContactMeta)> = Vec::new();
        let mut k: usize = 0;
        proof {
            lemma_filter_empty(b.meta, in_ids(ids@));
        }
        while k < self.meta.len()
            invariant
                k <= self.meta.len(),
                self@ == b,
                idv@ == ids@,
                meta_view(kept@) == b.meta.take(k as int).filter(in_ids(ids@)),
            decreases self.meta.len() - k,
        {
            proof {
                lemma_filter_take_step(b.meta, k as int, in_ids(ids@));
            }
            let id = self.meta[k].0;
            if contains_id(&idv, id) {
                let m = self.meta[k].1.copy();
                kept.push((id, m));
                assert(meta_view(kept@) =~= meta_view(kept@.drop_last()).push(b.meta[k as int]));
            }
            k += 1;
        }
        assert(b.meta.take(b.meta.len() as int) =~= b.meta);
        proof {
            lemma_filter_unique(b.meta, meta_key(), in_ids(ids@));
        }
        self.meta = kept;
        self.contact_ids = idv;
        missing
    }

    /// A downloaded contact avatar: a contact with details takes the local
    /// path. Returns whether that changed anything.
    pub fn set_contact_avatar(&mut self, id: i64, path: &str) -> (r: bool)
        requires
            old(self).wf(),
        ensures
            final(self).wf(),
            r == (match meta_of(old(self)@.meta, id) {
                Some(m) => m.avatar != Some(path@),
                None => false,
            }),
            final(self)@ == (match meta_of(old(self)@.meta, id) {
                Some(m) => ContactBookView {
                    meta: put_where(old(self)@.meta, meta_is(id), (id, MetaView { avatar: Some(path@), ..m })),
                    ..old(self)@
                },
                None => old(self)@,
            }),
    {
        let ghost b = self@;
        match self.meta_index(id) {
            Some(i) => {
                proof {
                    lemma_first_where_some(b.meta, meta_is(id));
                }
                let same = match &self.meta[i].1.avatar {
                    Some(a) => str_eq(a.as_str(), path),
                    None => false,
                };
                if same {
                    assert(b.meta.update(i as int, (id, MetaView { avatar: Some(path@), ..b.meta[i as int].1 })) =~= b.meta);
                    return false;
                }
                let mut m = self.meta[i].1.copy();
                m.avatar = Some(path.to_owned());
                self.store_meta(id, m);
                true
            },
            None => false,
        }
    }
}

/// A contact who is no longer a contact leaves the list and loses the
/// details shown for them.
pub proof fn law_former_contact_leaves(b: ContactBookView, u: UserInfo)
    requires
        book_wf(b),
        b.contacts.contains(u.id),
        u.is_contact == Some(false),
    ensures
        !note_contact_spec(b, u).0.contacts.contains(u.id),
        meta_of(note_contact_spec(b, u).0.meta, u.id) is None,
{
    broadcast use vstd::seq_lib::group_filter_ensures;
    let l = b.contacts.filter(not_id(u.id));
    if l.contains(u.id) {
        let k = choose|k: int| 0 <= k < l.len() && l[k] == u.id;
        assert(not_id(u.id)(l[k]));
    }
    lemma_remove_where(b.meta, meta_key(), meta_is(u.id), u.id);
}

/// A user who becomes a contact joins the end of the list, shown by their
/// display name and username, and the panel changes.
pub proof fn law_new_contact_joins(b: ContactBookView, u: UserInfo)
    requires
        book_wf(b),
        !b.contacts.contains(u.id),
        u.is_contact == Some(true),
    ensures
        note_contact_spec(b, u).0.contacts == b.contacts.push(u.id),
        meta_of(note_contact_spec(b, u).0.meta, u.id) matches Some(m) && m.name == display_name(
            u.name@,
            u.username@,
            u.id,
        ) && m.username == u.username@,
        note_contact_spec(b, u).1,
{
    let c = b.contacts.push(u.id);
    assert(c[b.contacts.len() as int] == u.id);
    let old = meta_or_empty(b.meta, u.id);
    let display = display_name(u.name@, u.username@, u.id);
    let renamed = old.name != display || old.username != u.username@;
    let m1 = if renamed { MetaView { name: display, username: u.username@, ..old } } else { old };
    let m2 = if u.photo_null { MetaView { avatar: None, ..m1 } } else { m1 };
    lemma_put_where(b.meta, meta_key(), meta_is(u.id), u.id, (u.id, m2));
    let r = put_where(b.meta, meta_is(u.id), (u.id, m2));
    match first_where(b.meta, meta_is(u.id)) {
        Some(i) => assert(r[i] == (u.id, m2)),
        None => assert(r[b.meta.len() as int] == (u.id, m2)),
    }
}

} // verus!
