//! What the window keeps of the session's updates: status, chats, folders,
//! search hits, contacts and the open conversation.

use vstd::prelude::*;
use crate::contacts::ContactRow;
use crate::desktop::{rows_view, UiView};
use crate::gpui::groups::{
    create_spec, delete_spec, group_has_id, groups_spec, rename_spec, GroupLibrary, LibraryView, NestedFolder,
};
use crate::gpui::view::{focus_nested, focus_nested_spec};
use crate::seqs::{first_where, lemma_first_where_found, lemma_first_where_none};
use crate::shell::{
    chats_view, links_view, messages_view, opt_text, ChatItem, ChatItemView, ContactItem, FolderItem, MessageKind,
    ShellCommand, TextMessage, TextMessageView, UiUpdate,
};
use crate::textutil::{chars_of, matches_at, occurs_at, starts_with_seq, str_eq, string_of, trim, trim_seq};

verus! {

/// The window's copy of the session state.
pub struct ShellWindow {
    pub ready: bool,
    pub status: String,
    pub convo_title: String,
    pub messages: Vec<TextMessage>,
    pub chats: Vec<ChatItem>,
    /// The folder the chat list is filtered to; `None` is all chats.
    pub folder: Option<i32>,
    pub folders: Vec<FolderItem>,
    pub open_chat: Option<i64>,
    /// The query the search hits answer.
    pub search_echo: String,
    pub search_hits: Vec<ChatItem>,
    pub contacts: Vec<ContactItem>,
    pub loading_older: bool,
    /// The feed reader is shown in place of the chats.
    pub show_feeds: bool,
    /// The contacts panel is shown in place of the chats.
    pub show_contacts: bool,
    /// The local group selected in the sidebar.
    pub group_id: Option<String>,
    pub renaming_group: bool,
    /// The last search query sent, trimmed.
    pub search_sent: String,
}

#[verifier::ext_equal]
pub struct WindowView {
    pub ready: bool,
    pub status: Seq<char>,
    pub convo_title: Seq<char>,
    pub messages: Seq<TextMessageView>,
    pub chats: Seq<ChatItemView>,
    pub folder: Option<i32>,
    pub folders: Seq<(i32, Seq<char>)>,
    pub open_chat: Option<i64>,
    pub search_echo: Seq<char>,
    pub search_hits: Seq<ChatItemView>,
    pub contacts: Seq<ContactRow>,
    pub loading_older: bool,
    pub show_feeds: bool,
    pub show_contacts: bool,
    pub group_id: Option<Seq<char>>,
    pub renaming_group: bool,
    pub search_sent: Seq<char>,
}

impl View for ShellWindow {
    type V = WindowView;

    open spec fn view(&self) -> WindowView {
        WindowView {
            ready: self.ready,
            status: self.status@,
            convo_title: self.convo_title@,
            messages: messages_view(self.messages@),
            chats: chats_view(self.chats@),
            folder: self.folder,
            folders: crate::desktop::folders_view(self.folders@),
            open_chat: self.open_chat,
            search_echo: self.search_echo@,
            search_hits: chats_view(self.search_hits@),
            contacts: rows_view(self.contacts@),
            loading_older: self.loading_older,
            show_feeds: self.show_feeds,
            show_contacts: self.show_contacts,
            group_id: opt_text(self.group_id),
            renaming_group: self.renaming_group,
            search_sent: self.search_sent@,
        }
    }
}

/// What the window does after taking an update, beyond its own state.
#[derive(Debug, PartialEq, Eq)]
pub enum AfterUpdate {
    Nothing,
    /// Print the log line.
    Print(String),
    /// Lay the transcript out again.
    Sync,
    /// A chat was opened: hold history scrolling back a moment, and lay
    /// the transcript out again.
    Opened,
}

pub enum AfterView {
    Nothing,
    Print(Seq<char>),
    Sync,
    Opened,
}

impl View for AfterUpdate {
    type V = AfterView;

    open spec fn view(&self) -> AfterView {
        match self {
            AfterUpdate::Nothing => AfterView::Nothing,
            AfterUpdate::Print(s) => AfterView::Print(s@),
            AfterUpdate::Sync => AfterView::Sync,
            AfterUpdate::Opened => AfterView::Opened,
        }
    }
}

/// The one message the transcript shows after a fatal error.
pub open spec fn fatal_message(text: Seq<char>) -> TextMessageView {
    TextMessageView {
        id: 0,
        chat_id: 0,
        sender: Seq::empty(),
        text,
        date: 0,
        kind: MessageKind::Text,
        photo: None,
        photo_full: None,
        photo_full_width: 0,
        photo_full_height: 0,
        links: Seq::empty(),
        outgoing: false,
        read: false,
    }
}

pub open spec fn chat_has_id(id: i64) -> spec_fn(ChatItemView) -> bool {
    |c: ChatItemView| c.id == id
}

/// The conversation title while a chat opens: its listed title when it
/// has a real one, else `Loading…`.
pub open spec fn opening_title(chats: Seq<ChatItemView>, id: i64) -> Seq<char> {
    match first_where(chats, chat_has_id(id)) {
        Some(i) => if chats[i].title.len() > 0 && chats[i].title != "…"@ { chats[i].title } else { "Loading…"@ },
        None => "Loading…"@,
    }
}

pub open spec fn has_folder(folders: Seq<(i32, Seq<char>)>, id: i32) -> bool {
    exists|k: int| 0 <= k < folders.len() && (#[trigger] folders[k]).0 == id
}

/// The window after an update, and what it does next.
pub open spec fn window_apply_spec(w: WindowView, u: UiView) -> (WindowView, AfterView) {
    match u {
        UiView::Log(line) => (w, AfterView::Print(line)),
        UiView::Status(text) => (WindowView { status: text, ..w }, AfterView::Nothing),
        UiView::Ready => (WindowView { ready: true, status: "Ready"@, ..w }, AfterView::Nothing),
        UiView::Fatal(text) => (
            WindowView {
                ready: false,
                status: "TDLib error"@,
                convo_title: "TDLib error"@,
                messages: seq![fatal_message(text)],
                ..w
            },
            AfterView::Sync,
        ),
        UiView::ChatList(chats) => (WindowView { chats, ..w }, AfterView::Nothing),
        UiView::Folders(folders) => (
            WindowView {
                folder: match w.folder {
                    Some(id) => if has_folder(folders, id) { Some(id) } else { None },
                    None => None,
                },
                folders,
                ..w
            },
            AfterView::Nothing,
        ),
        UiView::Conversation { chat_id, title, messages } => if w.open_chat == Some(chat_id) {
            (WindowView { convo_title: title, messages, ..w }, AfterView::Sync)
        } else {
            (w, AfterView::Nothing)
        },
        UiView::SearchResults { query, chats } => (
            WindowView { search_echo: query, search_hits: chats, ..w },
            AfterView::Nothing,
        ),
        UiView::Contacts(contacts) => (WindowView { contacts, ..w }, AfterView::Nothing),
        UiView::OpenChat(id) => (
            WindowView {
                open_chat: Some(id),
                convo_title: opening_title(w.chats, id),
                messages: Seq::empty(),
                loading_older: false,
                ..w
            },
            AfterView::Opened,
        ),
    }
}

/// What a sidebar action asks of the session.
pub enum SentView {
    SelectFolder(Option<i32>),
    Search(Seq<char>),
    LoadContacts,
}

pub open spec fn is_command(c: ShellCommand, v: SentView) -> bool {
    match (c, v) {
        (ShellCommand::SelectFolder(a), SentView::SelectFolder(b)) => a == b,
        (ShellCommand::Search(q), SentView::Search(t)) => q@ == t,
        (ShellCommand::LoadContacts, SentView::LoadContacts) => true,
        _ => false,
    }
}

pub open spec fn sends(r: Option<ShellCommand>, v: Option<SentView>) -> bool {
    match (r, v) {
        (Some(c), Some(x)) => is_command(c, x),
        (None, None) => true,
        _ => false,
    }
}

pub open spec fn ends_with_seq(s: Seq<char>, p: Seq<char>) -> bool {
    s.len() >= p.len() && occurs_at(s, p, s.len() - p.len())
}

/// A status about the contacts panel, which leaving it clears.
pub open spec fn contacts_status(s: Seq<char>) -> bool {
    ends_with_seq(s, " contacts"@) || starts_with_seq(s, "Contacts "@) || starts_with_seq(s, "Opening chat"@)
}

/// Leaving the contacts panel: a contacts status goes back to `Ready`
/// when no search is under way.
pub open spec fn hide_contacts_spec(w: WindowView) -> WindowView {
    WindowView {
        status: if w.show_contacts && w.search_sent.len() == 0 && w.ready && contacts_status(w.status) {
            "Ready"@
        } else {
            w.status
        },
        show_contacts: false,
        ..w
    }
}

/// Picking a Telegram list: the session is asked for it unless it is open.
pub open spec fn select_folder_spec(w: WindowView, folder: Option<i32>) -> (WindowView, Option<SentView>) {
    let h = hide_contacts_spec(w);
    if h.folder == folder {
        (h, None)
    } else {
        (WindowView { folder, ..h }, Some(SentView::SelectFolder(folder)))
    }
}

pub open spec fn select_subscriptions_spec(w: WindowView) -> WindowView {
    if w.show_feeds {
        w
    } else {
        WindowView { show_feeds: true, group_id: None, renaming_group: false, ..hide_contacts_spec(w) }
    }
}

pub open spec fn select_contacts_spec(w: WindowView) -> (WindowView, Option<SentView>) {
    if w.show_contacts {
        (w, None)
    } else {
        (
            WindowView { show_contacts: true, show_feeds: false, group_id: None, renaming_group: false, ..w },
            Some(SentView::LoadContacts),
        )
    }
}

/// A new search box value: a changed trimmed query is sent, and clearing it
/// drops the hits.
pub open spec fn search_changed_spec(w: WindowView, value: Seq<char>) -> (WindowView, Option<SentView>) {
    let q = trim_seq(value);
    if q == w.search_sent {
        (w, None)
    } else if q.len() == 0 {
        (WindowView { search_sent: q, search_hits: Seq::empty(), search_echo: Seq::empty(), ..w }, Some(SentView::Search(q)))
    } else {
        (WindowView { search_sent: q, ..w }, Some(SentView::Search(q)))
    }
}

/// Picking a local group (`None` for none) whose lists are `folders`: the
/// chats come back in place of feeds or contacts, and the group's first list
/// opens unless the open one is in the group.
pub open spec fn select_group_spec(
    w: WindowView,
    group_id: Option<Seq<char>>,
    folders: Seq<NestedFolder>,
) -> (WindowView, Option<SentView>) {
    if !w.show_feeds && !w.show_contacts && w.group_id == group_id {
        (w, None)
    } else {
        let h = WindowView { show_feeds: false, renaming_group: false, group_id, ..hide_contacts_spec(w) };
        match group_id {
            Some(_) => match focus_nested_spec(folders, h.folder) {
                Some(target) => select_folder_spec(h, target),
                None => (h, None),
            },
            None => (h, None),
        }
    }
}

pub open spec fn contact_has_id(id: i64) -> spec_fn(ContactRow) -> bool {
    |c: ContactRow| c.user_id == id
}

/// Opening a chat from the list or the search hits: the title comes from
/// the first of them with that id, the transcript empties.
pub open spec fn open_chat_spec(w: WindowView, chat_id: i64) -> WindowView {
    WindowView {
        open_chat: Some(chat_id),
        convo_title: opening_title(w.chats + w.search_hits, chat_id),
        messages: Seq::empty(),
        loading_older: false,
        ..w
    }
}

/// Opening a contact's chat: the title is the contact's name while the
/// private chat is made.
pub open spec fn open_contact_spec(w: WindowView, user_id: i64) -> WindowView {
    match first_where(w.contacts, contact_has_id(user_id)) {
        Some(i) => WindowView { convo_title: w.contacts[i].name, ..w },
        None => w,
    }
}

/// Scrolling to the top asks for an older page, once at a time, when a chat
/// with messages is open and scrolling has settled after opening it.
pub open spec fn request_older_spec(w: WindowView, settled: bool) -> (WindowView, Option<i64>) {
    if w.loading_older || !settled {
        (w, None)
    } else {
        match w.open_chat {
            Some(id) => if w.messages.len() == 0 { (w, None) } else { (WindowView { loading_older: true, ..w }, Some(id)) },
            None => (w, None),
        }
    }
}

/// The composer's trimmed text goes to the open chat once the session is
/// ready, unless it is blank.
pub open spec fn send_composer_spec(w: WindowView, value: Seq<char>) -> Option<(i64, Seq<char>)> {
    match w.open_chat {
        Some(id) => if w.ready && trim_seq(value).len() > 0 { Some((id, trim_seq(value))) } else { None },
        None => None,
    }
}

/// Committing the group name box: a blank name does nothing; otherwise the
/// selected group is renamed while renaming, else a new group is made and
/// selected. The library is saved afterwards either way.
pub open spec fn commit_group_spec(w: WindowView, g: LibraryView, draft: Seq<char>) -> (WindowView, LibraryView, bool) {
    let name = trim_seq(draft);
    if name.len() == 0 {
        (w, g, false)
    } else if w.renaming_group {
        match w.group_id {
            Some(id) => (WindowView { renaming_group: false, ..w }, rename_spec(g, id, draft).0, true),
            None => (WindowView { renaming_group: false, ..w }, g, true),
        }
    } else {
        match create_spec(g, draft) {
            (g2, Some(id)) => (WindowView { show_feeds: false, group_id: Some(id), ..w }, g2, true),
            (g2, None) => (w, g2, true),
        }
    }
}

/// Deleting the selected group unselects it when it was there; whether to
/// save the library.
pub open spec fn delete_group_spec(w: WindowView, g: LibraryView) -> (WindowView, LibraryView, bool) {
    match w.group_id {
        Some(id) => {
            let (g2, found) = delete_spec(g, id);
            if found {
                (WindowView { group_id: None, renaming_group: false, ..w }, g2, true)
            } else {
                (w, g2, false)
            }
        },
        None => (w, g, false),
    }
}

/// Renaming starts on the selected group, when it exists; the box then
/// holds its name.
pub open spec fn begin_rename_spec(w: WindowView, g: LibraryView) -> (WindowView, Option<Seq<char>>) {
    match w.group_id {
        Some(id) => match first_where(groups_spec(g), group_has_id(id)) {
            Some(i) => (WindowView { renaming_group: true, ..w }, Some(groups_spec(g)[i].name)),
            None => (w, None),
        },
        None => (w, None),
    }
}

pub open spec fn message_has_id(id: i64) -> spec_fn(TextMessageView) -> bool {
    |m: TextMessageView| m.id == id
}

/// The photo popup's file for a message: its largest photo's path and, when
/// TDLib gave both, its pixel size (else the file's header says).
pub open spec fn full_photo_spec(messages: Seq<TextMessageView>, id: i64) -> Option<(Seq<char>, Option<(i32, i32)>)> {
    match first_where(messages, message_has_id(id)) {
        Some(i) => match messages[i].photo_full {
            Some(path) => Some((
                path,
                if messages[i].photo_full_width > 0 && messages[i].photo_full_height > 0 {
                    Some((messages[i].photo_full_width, messages[i].photo_full_height))
                } else {
                    None
                },
            )),
            None => None,
        },
        None => None,
    }
}

fn status_about_contacts(s: &str) -> (r: bool)
    ensures
        r == contacts_status(s@),
{
    let c = chars_of(s);
    let tail = chars_of(" contacts");
    let ends = tail.len() <= c.len() && matches_at(c.as_slice(), tail.as_slice(), c.len() - tail.len());
    let head = chars_of("Contacts ");
    let opening = chars_of("Opening chat");
    ends || matches_at(c.as_slice(), head.as_slice(), 0) || matches_at(c.as_slice(), opening.as_slice(), 0)
}

fn text_of(lit: &str) -> (r: String)
    ensures
        r@ == lit@,
{
    let c = chars_of(lit);
    string_of(c.as_slice())
}

fn opening_title_of(chats: &[ChatItem], id: i64) -> (r: String)
    ensures
        r@ == opening_title(chats_view(chats@), id),
{
    let ghost v = chats_view(chats@);
    let mut i: usize = 0;
    while i < chats.len()
        invariant
            i <= chats.len(),
            v == chats_view(chats@),
            forall|k: int| 0 <= k < i ==> !chat_has_id(id)(#[trigger] v[k]),
        decreases chats.len() - i,
    {
        if chats[i].id == id {
            proof {
                lemma_first_where_found(v, chat_has_id(id), i as int);
            }
            let t = &chats[i].title;
            if !t.as_str().is_empty() && !str_eq(t.as_str(), "…") {
                return t.clone();
            }
            return text_of("Loading…");
        }
        i += 1;
    }
    proof {
        lemma_first_where_none(v, chat_has_id(id));
    }
    text_of("Loading…")
}

fn folder_listed(folders: &[FolderItem], id: i32) -> (r: bool)
    ensures
        r == has_folder(crate::desktop::folders_view(folders@), id),
{
    let ghost v = crate::desktop::folders_view(folders@);
    let mut i: usize = 0;
    while i < folders.len()
        invariant
            i <= folders.len(),
            v == crate::desktop::folders_view(folders@),
            forall|k: int| 0 <= k < i ==> (#[trigger] v[k]).0 != id,
        decreases folders.len() - i,
    {
        if folders[i].id == id {
            assert(v[i as int].0 == id);
            return true;
        }
        i += 1;
    }
    false
}

impl ShellWindow {
    /// A window before the session has said anything.
    pub fn new() -> (w: Self)
        ensures
            !w@.ready && w@.open_chat is None && w@.folder is None && !w@.loading_older,
            w@.status.len() == 0 && w@.convo_title.len() == 0 && w@.search_echo.len() == 0,
            w@.messages.len() == 0 && w@.chats.len() == 0 && w@.folders.len() == 0,
            w@.search_hits.len() == 0 && w@.contacts.len() == 0,
            !w@.show_feeds && !w@.show_contacts && w@.group_id is None && !w@.renaming_group,
            w@.search_sent.len() == 0,
    {
        ShellWindow {
            ready: false,
            status: String::new(),
            convo_title: String::new(),
            messages: Vec::new(),
            chats: Vec::new(),
            folder: None,
            folders: Vec::new(),
            open_chat: None,
            search_echo: String::new(),
            search_hits: Vec::new(),
            contacts: Vec::new(),
            loading_older: false,
            show_feeds: false,
            show_contacts: false,
            group_id: None,
            renaming_group: false,
            search_sent: String::new(),
        }
    }

    fn hide_contacts(&mut self)
        ensures
            final(self)@ == hide_contacts_spec(old(self)@),
    {
        let ghost w = self@;
        if self.show_contacts && self.search_sent.as_str().is_empty() && self.ready && status_about_contacts(
            self.status.as_str(),
        ) {
            self.status = text_of("Ready");
        }
        self.show_contacts = false;
        assert(self@ =~= hide_contacts_spec(w));
    }

    /// Picks a Telegram list; the command to send, if any.
    pub fn select_folder(&mut self, folder: Option<i32>) -> (r: Option<ShellCommand>)
        ensures
            final(self)@ == select_folder_spec(old(self)@, folder).0,
            sends(r, select_folder_spec(old(self)@, folder).1),
    {
        self.hide_contacts();
        if self.folder == folder {
            return None;
        }
        let ghost h = self@;
        self.folder = folder;
        assert(self@ =~= WindowView { folder, ..h });
        Some(ShellCommand::SelectFolder(folder))
    }

    /// Shows the feed reader.
    pub fn select_subscriptions(&mut self)
        ensures
            final(self)@ == select_subscriptions_spec(old(self)@),
    {
        if self.show_feeds {
            return;
        }
        self.show_feeds = true;
        self.hide_contacts();
        let ghost h = self@;
        self.group_id = None;
        self.renaming_group = false;
        assert(self@ =~= select_subscriptions_spec(old(self)@)) by {
            assert(h =~= WindowView { show_feeds: true, ..hide_contacts_spec(old(self)@) });
        }
    }

    /// Shows the contacts panel; the command to send, if any.
    pub fn select_contacts(&mut self) -> (r: Option<ShellCommand>)
        ensures
            final(self)@ == select_contacts_spec(old(self)@).0,
            sends(r, select_contacts_spec(old(self)@).1),
    {
        if self.show_contacts {
            return None;
        }
        let ghost w = self@;
        self.show_contacts = true;
        self.show_feeds = false;
        self.group_id = None;
        self.renaming_group = false;
        assert(self@ =~= select_contacts_spec(w).0);
        Some(ShellCommand::LoadContacts)
    }

    /// The search box changed to `value`; the command to send, if any.
    pub fn search_changed(&mut self, value: &str) -> (r: Option<ShellCommand>)
        ensures
            final(self)@ == search_changed_spec(old(self)@, value@).0,
            sends(r, search_changed_spec(old(self)@, value@).1),
    {
        let ghost w = self@;
        let query = trim(value);
        if str_eq(query.as_str(), self.search_sent.as_str()) {
            return None;
        }
        self.search_sent = query.clone();
        if query.as_str().is_empty() {
            self.search_hits = Vec::new();
            self.search_echo = String::new();
        }
        assert(self@ =~= search_changed_spec(w, value@).0);
        Some(ShellCommand::Search(query))
    }

    /// Picks a local group (`None` for none) whose lists are `folders`; the
    /// command to send, if any.
    pub fn select_group(&mut self, group_id: Option<String>, folders: &[NestedFolder]) -> (r: Option<ShellCommand>)
        ensures
            final(self)@ == select_group_spec(old(self)@, opt_text(group_id), folders@).0,
            sends(r, select_group_spec(old(self)@, opt_text(group_id), folders@).1),
    {
        let ghost w = self@;
        let same = match (&self.group_id, &group_id) {
            (Some(a), Some(b)) => str_eq(a.as_str(), b.as_str()),
            (None, None) => true,
            _ => false,
        };
        if !self.show_feeds && !self.show_contacts && same {
            return None;
        }
        self.show_feeds = false;
        self.hide_contacts();
        self.renaming_group = false;
        let chosen = group_id.is_some();
        self.group_id = group_id;
        let ghost h = self@;
        assert(h =~= WindowView {
            show_feeds: false,
            renaming_group: false,
            group_id: opt_text(group_id),
            ..hide_contacts_spec(w)
        });
        if chosen {
            match focus_nested(folders, self.folder) {
                Some(target) => self.select_folder(target),
                None => None,
            }
        } else {
            None
        }
    }

    /// Opens a chat from the list or the search hits.
    pub fn open_chat(&mut self, chat_id: i64) -> (r: ShellCommand)
        ensures
            final(self)@ == open_chat_spec(old(self)@, chat_id),
            r == ShellCommand::SelectChat(chat_id),
    {
        let ghost w = self@;
        let mut all: Vec<ChatItem> = Vec::new();
        let mut i: usize = 0;
        while i < self.chats.len()
            invariant
                i <= self.chats.len(),
                self@ == w,
                chats_view(all@) == w.chats.take(i as int),
            decreases self.chats.len() - i,
        {
            all.push(self.chats[i].copy());
            assert(w.chats.take(i + 1) =~= w.chats.take(i as int).push(w.chats[i as int]));
            assert(chats_view(all@) =~= chats_view(all@.drop_last()).push(all@.last()@));
            i += 1;
        }
        let mut k: usize = 0;
        assert(w.chats.take(w.chats.len() as int) =~= w.chats);
        while k < self.search_hits.len()
            invariant
                k <= self.search_hits.len(),
                self@ == w,
                chats_view(all@) == w.chats + w.search_hits.take(k as int),
            decreases self.search_hits.len() - k,
        {
            all.push(self.search_hits[k].copy());
            assert(w.chats + w.search_hits.take(k + 1) =~= (w.chats + w.search_hits.take(k as int)).push(
                w.search_hits[k as int],
            ));
            assert(chats_view(all@) =~= chats_view(all@.drop_last()).push(all@.last()@));
            k += 1;
        }
        assert(w.search_hits.take(w.search_hits.len() as int) =~= w.search_hits);
        self.open_chat = Some(chat_id);
        self.convo_title = opening_title_of(all.as_slice(), chat_id);
        self.messages = Vec::new();
        self.loading_older = false;
        assert(self@ =~= open_chat_spec(w, chat_id));
        ShellCommand::SelectChat(chat_id)
    }

    /// Opens a contact's private chat.
    pub fn open_contact(&mut self, user_id: i64) -> (r: ShellCommand)
        ensures
            final(self)@ == open_contact_spec(old(self)@, user_id),
            r == ShellCommand::OpenContact(user_id),
    {
        let ghost w = self@;
        let mut i: usize = 0;
        while i < self.contacts.len()
            invariant
                i <= self.contacts.len(),
                self@ == w,
                w == old(self)@,
                forall|k: int| 0 <= k < i ==> !contact_has_id(user_id)(#[trigger] w.contacts[k]),
            decreases self.contacts.len() - i,
        {
            if self.contacts[i].user_id == user_id {
                proof {
                    lemma_first_where_found(w.contacts, contact_has_id(user_id), i as int);
                }
                let name = self.contacts[i].name.clone();
                assert(name@ == w.contacts[i as int].name);
                self.convo_title = name;
                assert(self@ =~= open_contact_spec(w, user_id));
                return ShellCommand::OpenContact(user_id);
            }
            i += 1;
        }
        proof {
            lemma_first_where_none(w.contacts, contact_has_id(user_id));
        }
        ShellCommand::OpenContact(user_id)
    }

    /// Asks for an older page of the open chat; `settled` is whether the
    /// scroll hold after opening it has passed.
    pub fn request_older(&mut self, settled: bool) -> (r: Option<ShellCommand>)
        ensures
            final(self)@ == request_older_spec(old(self)@, settled).0,
            match r {
                Some(ShellCommand::LoadOlder { chat_id }) => request_older_spec(old(self)@, settled).1 == Some(chat_id),
                Some(_) => false,
                None => request_older_spec(old(self)@, settled).1 is None,
            },
    {
        if self.loading_older || !settled {
            return None;
        }
        match self.open_chat {
            Some(chat_id) => {
                if self.messages.len() == 0 {
                    return None;
                }
                let ghost w = self@;
                self.loading_older = true;
                assert(self@ =~= WindowView { loading_older: true, ..w });
                Some(ShellCommand::LoadOlder { chat_id })
            },
            None => None,
        }
    }

    /// What sending the composer's `value` asks of the session, if anything.
    pub fn send_composer(&self, value: &str) -> (r: Option<ShellCommand>)
        ensures
            match r {
                Some(ShellCommand::SendText { chat_id, text }) => send_composer_spec(self@, value@) == Some(
                    (chat_id, text@),
                ),
                Some(_) => false,
                None => send_composer_spec(self@, value@) is None,
            },
    {
        match self.open_chat {
            Some(chat_id) => {
                if !self.ready {
                    return None;
                }
                let text = trim(value);
                if text.as_str().is_empty() {
                    None
                } else {
                    Some(ShellCommand::SendText { chat_id, text })
                }
            },
            None => None,
        }
    }

    /// Commits the group name box; whether the library changed and is to
    /// be saved.
    pub fn commit_group_draft(&mut self, groups: &mut GroupLibrary, draft: &str) -> (r: bool)
        requires
            old(groups).wf(),
        ensures
            final(groups).wf(),
            (final(self)@, final(groups)@, r) == commit_group_spec(old(self)@, old(groups)@, draft@),
    {
        let ghost w = self@;
        let name = trim(draft);
        if name.as_str().is_empty() {
            return false;
        }
        if self.renaming_group {
            match &self.group_id {
                Some(id) => {
                    groups.rename(id.as_str(), draft);
                },
                None => {},
            }
            self.renaming_group = false;
            assert(self@ =~= WindowView { renaming_group: false, ..w });
        } else {
            match groups.create(draft) {
                Some(id) => {
                    self.show_feeds = false;
                    self.group_id = Some(id);
                    assert(self@ =~= commit_group_spec(w, old(groups)@, draft@).0);
                },
                None => {},
            }
        }
        true
    }

    /// Deletes the selected group; whether the library is to be saved.
    pub fn delete_selected_group(&mut self, groups: &mut GroupLibrary) -> (r: bool)
        requires
            old(groups).wf(),
        ensures
            final(groups).wf(),
            (final(self)@, final(groups)@, r) == delete_group_spec(old(self)@, old(groups)@),
    {
        let ghost w = self@;
        let found = match &self.group_id {
            Some(id) => groups.delete(id.as_str()),
            None => false,
        };
        if found {
            self.group_id = None;
            self.renaming_group = false;
            assert(self@ =~= delete_group_spec(w, old(groups)@).0);
        }
        found
    }

    /// Starts renaming the selected group; the name to put in the box.
    pub fn begin_rename(&mut self, groups: &GroupLibrary) -> (r: Option<String>)
        ensures
            final(self)@ == begin_rename_spec(old(self)@, groups@).0,
            opt_text(r) == begin_rename_spec(old(self)@, groups@).1,
    {
        let ghost w = self@;
        let name = match &self.group_id {
            Some(id) => match groups.group(id.as_str()) {
                Some(group) => Some(group.name.clone()),
                None => None,
            },
            None => None,
        };
        if name.is_some() {
            self.renaming_group = true;
            assert(self@ =~= WindowView { renaming_group: true, ..w });
        }
        name
    }

    /// The popup's file for a message of the transcript, and its pixel size
    /// when TDLib gave it.
    pub fn full_photo(&self, message_id: i64) -> (r: Option<(String, Option<(i32, i32)>)>)
        ensures
            match r {
                Some((path, size)) => full_photo_spec(self@.messages, message_id) == Some((path@, size)),
                None => full_photo_spec(self@.messages, message_id) is None,
            },
    {
        let ghost v = self@.messages;
        let mut i: usize = 0;
        while i < self.messages.len()
            invariant
                i <= self.messages.len(),
                v == messages_view(self.messages@),
                forall|k: int| 0 <= k < i ==> !message_has_id(message_id)(#[trigger] v[k]),
            decreases self.messages.len() - i,
        {
            let m = &self.messages[i];
            if m.id == message_id {
                proof {
                    lemma_first_where_found(v, message_has_id(message_id), i as int);
                }
                return match &m.photo_full {
                    Some(path) => {
                        let size = if m.photo_full_width > 0 && m.photo_full_height > 0 {
                            Some((m.photo_full_width, m.photo_full_height))
                        } else {
                            None
                        };
                        Some((path.clone(), size))
                    },
                    None => None,
                };
            }
            i += 1;
        }
        proof {
            lemma_first_where_none(v, message_has_id(message_id));
        }
        None
    }

    /// Takes one update from the session.
    pub fn apply(&mut self, update: UiUpdate) -> (r: AfterUpdate)
        ensures
            (final(self)@, r@) == window_apply_spec(old(self)@, update@),
    {
        let ghost w = self@;
        let ghost u = update@;
        match update {
            UiUpdate::Log(line) => AfterUpdate::Print(line),
            UiUpdate::Status(text) => {
                self.status = text;
                assert(self@ =~= window_apply_spec(w, u).0);
                AfterUpdate::Nothing
            },
            UiUpdate::Ready => {
                self.ready = true;
                self.status = text_of("Ready");
                assert(self@ =~= window_apply_spec(w, u).0);
                AfterUpdate::Nothing
            },
            UiUpdate::Fatal(text) => {
                self.ready = false;
                self.status = text_of("TDLib error");
                self.convo_title = text_of("TDLib error");
                let mut messages: Vec<TextMessage> = Vec::new();
                messages.push(TextMessage {
                    id: 0,
                    chat_id: 0,
                    sender: String::new(),
                    text,
                    date: 0,
                    kind: MessageKind::Text,
                    photo: None,
                    photo_full: None,
                    photo_full_width: 0,
                    photo_full_height: 0,
                    links: Vec::new(),
                    outgoing: false,
                    read: false,
                });
                self.messages = messages;
                assert(links_view(self.messages@[0].links@) =~= Seq::<crate::shell::TextLinkView>::empty());
                assert(self@.messages =~= seq![fatal_message(u->Fatal_0)]);
                assert(self@ =~= window_apply_spec(w, u).0);
                AfterUpdate::Sync
            },
            UiUpdate::ChatList(chats) => {
                self.chats = chats;
                assert(self@ =~= window_apply_spec(w, u).0);
                AfterUpdate::Nothing
            },
            UiUpdate::Folders(folders) => {
                if let Some(id) = self.folder {
                    if !folder_listed(folders.as_slice(), id) {
                        self.folder = None;
                    }
                }
                self.folders = folders;
                assert(self@ =~= window_apply_spec(w, u).0);
                AfterUpdate::Nothing
            },
            UiUpdate::Conversation { chat_id, title, messages } => {
                if self.open_chat != Some(chat_id) {
                    return AfterUpdate::Nothing;
                }
                self.convo_title = title;
                self.messages = messages;
                assert(self@ =~= window_apply_spec(w, u).0);
                AfterUpdate::Sync
            },
            UiUpdate::SearchResults { query, chats } => {
                self.search_echo = query;
                self.search_hits = chats;
                assert(self@ =~= window_apply_spec(w, u).0);
                AfterUpdate::Nothing
            },
            UiUpdate::Contacts(contacts) => {
                self.contacts = contacts;
                assert(self@ =~= window_apply_spec(w, u).0);
                AfterUpdate::Nothing
            },
            UiUpdate::OpenChat(chat_id) => {
                self.open_chat = Some(chat_id);
                self.convo_title = opening_title_of(self.chats.as_slice(), chat_id);
                self.messages = Vec::new();
                self.loading_older = false;
                assert(self@ =~= window_apply_spec(w, u).0);
                AfterUpdate::Opened
            },
        }
    }
}

} // verus!
