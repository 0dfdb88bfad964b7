//! TDLib files the desktop session waits for: what each file is for, which
//! downloads were asked, and where a finished download goes.

use vstd::prelude::*;
use crate::chats::{edit_chat, ChatTable, ChatTableView};
use crate::contacts::{meta_is, meta_of, ContactBook, ContactBookView, MetaView};
use crate::messages::{photo_spec, MessageStore, PhotoSlot};
use crate::seqs::{
    find_where, first_where, lemma_first_where_found, lemma_first_where_none, lemma_first_where_some,
    lemma_put_where, put_where, unique_by,
};
use crate::shell::{chat_with_id, ChatItemView};

verus! {

/// What a file is for.
#[derive(Clone, Copy, Debug, PartialEq, Eq, Structural)]
pub enum FileRole {
    /// The small photo of a chat.
    Avatar(i64),
    /// The small profile photo of a contact.
    ContactAvatar(i64),
    /// A photo of a message: chat id, message id, and the path it fills.
    MessagePhoto(i64, i64, PhotoSlot),
}

/// A TDLib `file` as the session reads it.
pub struct FileRef {
    /// `id`, when it is a positive `i32`.
    pub id: Option<i32>,
    /// The trimmed `local.path` once `local.is_downloading_completed`.
    pub completed: Option<String>,
    /// `local.can_be_downloaded`, when it is a bool.
    pub can_download: Option<bool>,
}

/// What to do about a file once it is watched.
#[derive(Debug)]
pub enum WatchStep {
    /// The file is already on disk at this path: apply it now.
    Apply(String),
    /// Ask TDLib to download it.
    Request,
    /// Nothing: the download was asked before, or cannot be made.
    Nothing,
}

pub struct FileWatch {
    roles: Vec<(i32, FileRole)>,
    sent: Vec<i32>,
}

#[verifier::ext_equal]
pub struct FileWatchView {
    pub roles: Seq<(i32, FileRole)>,
    pub sent: Seq<i32>,
}

impl View for FileWatch {
    type V = FileWatchView;

    closed spec fn view(&self) -> FileWatchView {
        FileWatchView { roles: self.roles@, sent: self.sent@ }
    }
}

pub open spec fn role_key() -> spec_fn((i32, FileRole)) -> i32 {
    |e: (i32, FileRole)| e.0
}

pub open spec fn role_is(id: i32) -> spec_fn((i32, FileRole)) -> bool {
    |e: (i32, FileRole)| e.0 == id
}

/// The role of a file, if it is watched.
pub open spec fn role_of(roles: Seq<(i32, FileRole)>, id: i32) -> Option<FileRole> {
    match find_where(roles, role_is(id)) {
        Some(e) => Some(e.1),
        None => None,
    }
}

/// The watch after file `id` is watched for `role`, and what to do: apply
/// a finished file, else ask for the download once unless TDLib said it
/// cannot be downloaded.
pub open spec fn watch_spec(
    w: FileWatchView,
    id: i32,
    role: FileRole,
    completed: Option<Seq<char>>,
    can_download: Option<bool>,
) -> (FileWatchView, Option<Option<Seq<char>>>) {
    let roles = put_where(w.roles, role_is(id), (id, role));
    match completed {
        Some(p) => (FileWatchView { roles, ..w }, Some(Some(p))),
        None => if w.sent.contains(id) || can_download == Some(false) {
            (FileWatchView { roles, ..w }, None)
        } else {
            (FileWatchView { roles, sent: w.sent.push(id) }, Some(None))
        },
    }
}

/// `Apply(p)` as `Some(Some(p))`, `Request` as `Some(None)`, `Nothing` as
/// `None`.
pub open spec fn step_view(s: WatchStep) -> Option<Option<Seq<char>>> {
    match s {
        WatchStep::Apply(p) => Some(Some(p@)),
        WatchStep::Request => Some(None),
        WatchStep::Nothing => None,
    }
}

/// The photo files of a message to watch: one file for both paths when
/// preview and popup are the same file, else each that is there.
pub open spec fn photo_watches_spec(preview: Option<i32>, full: Option<i32>) -> Seq<(i32, PhotoSlot)> {
    match (preview, full) {
        (Some(p), Some(f)) => if p == f { seq![(p, PhotoSlot::Both)] } else { seq![(p, PhotoSlot::Preview), (f, PhotoSlot::Full)] },
        (Some(p), None) => seq![(p, PhotoSlot::Preview)],
        (None, Some(f)) => seq![(f, PhotoSlot::Full)],
        (None, None) => Seq::empty(),
    }
}

pub fn photo_watches(preview: Option<i32>, full: Option<i32>) -> (r: Vec<(i32, PhotoSlot)>)
    ensures
        r@ == photo_watches_spec(preview, full),
{
    let mut r: Vec<(i32, PhotoSlot)> = Vec::new();
    match (preview, full) {
        (Some(p), Some(f)) => {
            if p == f {
                r.push((p, PhotoSlot::Both));
            } else {
                r.push((p, PhotoSlot::Preview));
                r.push((f, PhotoSlot::Full));
            }
        },
        (Some(p), None) => r.push((p, PhotoSlot::Preview)),
        (None, Some(f)) => r.push((f, PhotoSlot::Full)),
        (None, None) => {},
    }
    assert(r@ =~= photo_watches_spec(preview, full));
    r
}

fn contains_file(v: &Vec<i32>, id: i32) -> (r: bool)
    ensures
        r == v@.contains(id),
{
    let mut k: usize = 0;
    while k < v.len()
        invariant
            k <= v.len(),
            forall|j: int| 0 <= j < k ==> v@[j] != id,
        decreases v.len() - k,
    {
        if v[k] == id {
            assert(v@[k as int] == id);
            return true;
        }
        k += 1;
    }
    false
}

impl FileWatch {
    pub open spec fn wf(&self) -> bool {
        unique_by(self@.roles, role_key())
    }

    pub fn new() -> (w: Self)
        ensures
            w.wf(),
            w@.roles.len() == 0 && w@.sent.len() == 0,
    {
        FileWatch { roles: Vec::new(), sent: Vec::new() }
    }

    fn role_index(&self, id: i32) -> (r: Option<usize>)
        ensures
            match r {
                Some(i) => first_where(self@.roles, role_is(id)) == Some(i as int) && i < self.roles.len(),
                None => first_where(self@.roles, role_is(id)) is None,
            },
    {
        let ghost v = self@.roles;
        let mut i: usize = 0;
        while i < self.roles.len()
            invariant
                i <= self.roles.len(),
                v == self.roles@,
                forall|k: int| 0 <= k < i ==> !role_is(id)(#[trigger] v[k]),
            decreases self.roles.len() - i,
        {
            if self.roles[i].0 == id {
                proof {
                    assert(role_is(id)(v[i as int]));
                    lemma_first_where_found(v, role_is(id), i as int);
                }
                return Some(i);
            }
            assert(!role_is(id)(v[i as int]));
            i += 1;
        }
        proof {
            lemma_first_where_none(v, role_is(id));
        }
        None
    }

    /// The role of a watched file.
    pub fn role(&self, id: i32) -> (r: Option<FileRole>)
        ensures
            r == role_of(self@.roles, id),
    {
        match self.role_index(id) {
            Some(i) => {
                proof {
                    lemma_first_where_some(self@.roles, role_is(id));
                }
                Some(self.roles[i].1)
            },
            None => None,
        }
    }

    /// Watch file `id` for `role`. `completed` is its local path when the
    /// download has finished; `can_download` is TDLib's
    /// `local.can_be_downloaded`.
    pub fn watch(&mut self, id: i32, role: FileRole, completed: Option<String>, can_download: Option<bool>) -> (r: WatchStep)
        requires
            old(self).wf(),
        ensures
            final(self).wf(),
            (final(self)@, step_view(r)) == watch_spec(old(self)@, id, role, opt_seq(completed), can_download),
    {
        let ghost w = self@;
        proof {
            lemma_put_where(w.roles, role_key(), role_is(id), id, (id, role));
        }
        match self.role_index(id) {
            Some(i) => self.roles.set(i, (id, role)),
            None => self.roles.push((id, role)),
        }
        match completed {
            Some(p) => WatchStep::Apply(p),
            None => {
                if contains_file(&self.sent, id) || can_download == Some(false) {
                    WatchStep::Nothing
                } else {
                    self.sent.push(id);
                    WatchStep::Request
                }
            },
        }
    }
}

pub open spec fn opt_seq(o: Option<String>) -> Option<Seq<char>> {
    match o {
        Some(s) => Some(s@),
        None => None,
    }
}

/// The tables after a download of file `id` finished at `path`, and whether
/// anything visible changed: a chat or contact avatar, or a message photo,
/// as the file's role says.
pub open spec fn downloaded_spec(
    roles: Seq<(i32, FileRole)>,
    chats: ChatTableView,
    contacts: ContactBookView,
    messages: Seq<(i64, Seq<(i64, crate::shell::StoredView)>)>,
    id: i32,
    path: Seq<char>,
) -> (ChatTableView, ContactBookView, Seq<(i64, Seq<(i64, crate::shell::StoredView)>)>, bool) {
    match role_of(roles, id) {
        Some(FileRole::Avatar(chat_id)) => {
            let changed = match chat_with_id(chats.chats, chat_id) {
                Some(c) => c.avatar != Some(path),
                None => false,
            };
            (
                ChatTableView {
                    chats: edit_chat(chats.chats, chat_id, |c: ChatItemView| ChatItemView { avatar: Some(path), ..c }),
                    ..chats
                },
                contacts,
                messages,
                changed,
            )
        },
        Some(FileRole::ContactAvatar(user_id)) => match meta_of(contacts.meta, user_id) {
            Some(m) => (
                chats,
                ContactBookView {
                    meta: put_where(contacts.meta, meta_is(user_id), (user_id, MetaView { avatar: Some(path), ..m })),
                    ..contacts
                },
                messages,
                m.avatar != Some(path),
            ),
            None => (chats, contacts, messages, false),
        },
        Some(FileRole::MessagePhoto(chat_id, message_id, slot)) => {
            let (after, changed) = photo_spec(messages, chat_id, message_id, slot, path);
            (chats, contacts, after, changed)
        },
        None => (chats, contacts, messages, false),
    }
}

/// A finished download of file `id` at `path`, applied as its role says.
/// Returns whether anything visible changed.
pub fn apply_downloaded(
    watch: &FileWatch,
    chats: &mut ChatTable,
    contacts: &mut ContactBook,
    messages: &mut MessageStore,
    id: i32,
    path: &str,
) -> (changed: bool)
    requires
        old(chats).wf(),
        old(contacts).wf(),
        old(messages).wf(),
    ensures
        final(chats).wf(),
        final(contacts).wf(),
        final(messages).wf(),
        (final(chats)@, final(contacts)@, final(messages)@, changed) == downloaded_spec(
            watch@.roles,
            old(chats)@,
            old(contacts)@,
            old(messages)@,
            id,
            path@,
        ),
{
    match watch.role(id) {
        Some(FileRole::Avatar(chat_id)) => chats.set_avatar(chat_id, path),
        Some(FileRole::ContactAvatar(user_id)) => contacts.set_contact_avatar(user_id, path),
        Some(FileRole::MessagePhoto(chat_id, message_id, slot)) => messages.set_photo(chat_id, message_id, slot, path),
        None => false,
    }
}

} // verus!
