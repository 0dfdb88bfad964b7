//! The desktop session's state machine. The worker hands each TDLib event
//! and each UI command to a [`Shell`] and performs the returned
//! [`ShellEffect`]: send its requests, pass its updates to the UI. Every
//! decision of the session is made here.

use vstd::prelude::*;
use crate::chats::{
    detach_spec, edit_chat, folder_listing, known_all, last_message_spec, position_spec, remember_spec, synth_all,
    title_missing, unread_spec, ChatInfo, ChatTable, ChatTableView, LastMessage,
};
use crate::contacts::{
    contact_row, in_ids, lacks_meta, meta_of, note_contact_spec, ContactBook, ContactBookView, ContactRow, UserInfo,
};
use crate::driver::{
    error_line, explain_error, explain_spec, get_chat_view, is_incomplete_state, params_view, set_tdlib_parameters,
    SessionConfig,
    SENDING_PARAMETERS,
};
use crate::files::{apply_downloaded, downloaded_spec, opt_seq, role_of, watch_spec, FileRef, FileRole, FileWatch, FileWatchView, WatchStep};
use crate::history::{cancel_spec, finish_spec, older_anchor, open_spec, set_insert, HistoryTracker, HistoryView};
use crate::messages::{
    bucket_of, content_spec, cursor_is, cursor_of, MessageContent, MessageStore, PhotoSlot, ReadCursors,
};
use crate::request::{ChatList, Request, RequestView};
use crate::search::{error_spec, reply_spec, start_spec, search_limit, SearchStart, SearchState, SearchView};
use crate::shell::{
    chat_list_spec, chat_with_id, chats_view, dedup_spec, id_before, links_view, min_id, open_message_ids, opt_text,
    sorted_unique_ids, user_name_of, view_ids_spec, StoredMessage, oldest_message_id, public_search_query_spec, HISTORY_LIMIT, conversation_spec, messages_view, search_generation,
    search_generation_spec, search_rows, search_status, search_status_spec, status_for, status_for_spec, take_upto,
    ChatItemView, ContactItem, FolderItem,
    ChatPosition, PositionList, ShellCommand, TextMessageView, UiUpdate, StoredView,
};
use crate::seqs::{find_where, put_where};
use crate::textutil::{
    chars_of, contains_chars, contains_seq, decimal, int_text, lower_chars, lower_seq, matches_at, parse_i64, parse_i64_seq, push_decimal, push_int, starts_with_seq,
    str_eq, trim, trim_seq,
};

verus! {

/// [`UiUpdate`] with its strings as character sequences.
pub enum UiView {
    Log(Seq<char>),
    Status(Seq<char>),
    Ready,
    ChatList(Seq<ChatItemView>),
    Conversation { chat_id: i64, title: Seq<char>, messages: Seq<TextMessageView> },
    Folders(Seq<(i32, Seq<char>)>),
    SearchResults { query: Seq<char>, chats: Seq<ChatItemView> },
    Contacts(Seq<ContactRow>),
    OpenChat(i64),
    Fatal(Seq<char>),
}

pub open spec fn folders_view(v: Seq<FolderItem>) -> Seq<(i32, Seq<char>)> {
    v.map_values(|f: FolderItem| (f.id, f.title@))
}

pub open spec fn rows_view(v: Seq<ContactItem>) -> Seq<ContactRow> {
    v.map_values(|c: ContactItem| c@)
}

/// Whether an update may reach the window: log lines that mention the
/// `api_hash` are kept back, every other update goes through.
pub open spec fn forwarded_spec(u: UiView) -> bool {
    match u {
        UiView::Log(line) => !contains_seq(line, "api_hash"@),
        _ => true,
    }
}

pub fn is_forwarded(update: &UiUpdate) -> (r: bool)
    ensures
        r == forwarded_spec(update@),
{
    match update {
        UiUpdate::Log(line) => {
            let l = chars_of(line.as_str());
            let key = chars_of("api_hash");
            !contains_chars(l.as_slice(), key.as_slice())
        },
        _ => true,
    }
}

impl View for UiUpdate {
    type V = UiView;

    open spec fn view(&self) -> UiView {
        match self {
            UiUpdate::Log(s) => UiView::Log(s@),
            UiUpdate::Status(s) => UiView::Status(s@),
            UiUpdate::Ready => UiView::Ready,
            UiUpdate::ChatList(v) => UiView::ChatList(chats_view(v@)),
            UiUpdate::Conversation { chat_id, title, messages } => UiView::Conversation {
                chat_id: *chat_id,
                title: title@,
                messages: messages_view(messages@),
            },
            UiUpdate::Folders(v) => UiView::Folders(folders_view(v@)),
            UiUpdate::SearchResults { query, chats } => UiView::SearchResults {
                query: query@,
                chats: chats_view(chats@),
            },
            UiUpdate::Contacts(v) => UiView::Contacts(rows_view(v@)),
            UiUpdate::OpenChat(id) => UiView::OpenChat(*id),
            UiUpdate::Fatal(s) => UiView::Fatal(s@),
        }
    }
}

/// What the worker does after an event or a command: pass `ui` to the UI,
/// then send `send` to TDLib.
pub struct ShellEffect {
    pub send: Vec<Request>,
    pub ui: Vec<UiUpdate>,
}

#[verifier::ext_equal]
pub struct ShellEffectView {
    pub send: Seq<RequestView>,
    pub ui: Seq<UiView>,
}

pub open spec fn requests_view(v: Seq<Request>) -> Seq<RequestView> {
    v.map_values(|r: Request| r@)
}

pub open spec fn ui_view(v: Seq<UiUpdate>) -> Seq<UiView> {
    v.map_values(|u: UiUpdate| u@)
}

impl View for ShellEffect {
    type V = ShellEffectView;

    open spec fn view(&self) -> ShellEffectView {
        ShellEffectView { send: requests_view(self.send@), ui: ui_view(self.ui@) }
    }
}

pub open spec fn effect(send: Seq<RequestView>, ui: Seq<UiView>) -> ShellEffectView {
    ShellEffectView { send, ui }
}

pub open spec fn nothing() -> ShellEffectView {
    effect(Seq::empty(), Seq::empty())
}

/// The session's state, each part by its view.
#[verifier::ext_equal]
pub struct ShellModel {
    pub cfg: SessionConfig,
    pub ready: bool,
    pub closing: bool,
    pub finished: bool,
    pub failed: bool,
    pub sent_parameters: bool,
    pub sent_encryption_check: bool,
    pub did_load: bool,
    pub get_chats_sent: u8,
    pub my_user_id: Option<i64>,
    pub table: ChatTableView,
    pub book: ContactBookView,
    pub messages: Seq<(i64, Seq<(i64, StoredView)>)>,
    pub cursors: Seq<(i64, i64)>,
    pub files: FileWatchView,
    pub history: HistoryView,
    pub search: SearchView,
    pub folders: Seq<(i32, Seq<char>)>,
    /// `None` shows the main list.
    pub active_folder: Option<i32>,
    /// Folders whose chats were asked for.
    pub folder_fetches: Seq<i32>,
}

pub struct Shell {
    cfg: SessionConfig,
    ready: bool,
    closing: bool,
    finished: bool,
    failed: bool,
    sent_parameters: bool,
    sent_encryption_check: bool,
    did_load: bool,
    get_chats_sent: u8,
    my_user_id: Option<i64>,
    table: ChatTable,
    book: ContactBook,
    messages: MessageStore,
    cursors: ReadCursors,
    files: FileWatch,
    history: HistoryTracker,
    search: SearchState,
    folders: Vec<FolderItem>,
    active_folder: Option<i32>,
    folder_fetches: Vec<i32>,
}

impl View for Shell {
    type V = ShellModel;

    closed spec fn view(&self) -> ShellModel {
        ShellModel {
            cfg: self.cfg,
            ready: self.ready,
            closing: self.closing,
            finished: self.finished,
            failed: self.failed,
            sent_parameters: self.sent_parameters,
            sent_encryption_check: self.sent_encryption_check,
            did_load: self.did_load,
            get_chats_sent: self.get_chats_sent,
            my_user_id: self.my_user_id,
            table: self.table@,
            book: self.book@,
            messages: self.messages@,
            cursors: self.cursors@,
            files: self.files@,
            history: self.history@,
            search: self.search@,
            folders: folders_view(self.folders@),
            active_folder: self.active_folder,
            folder_fetches: self.folder_fetches@,
        }
    }
}

/// The chat list as the UI shows it.
pub open spec fn chat_list_ui(m: ShellModel) -> UiView {
    UiView::ChatList(chat_list_spec(m.table.chats, m.table.listed, m.table.orders, m.active_folder, m.cfg.chat_limit))
}

/// The transcript of a chat as the UI shows it.
pub open spec fn conversation_ui(m: ShellModel, chat_id: i64) -> UiView {
    UiView::Conversation {
        chat_id,
        title: match chat_with_id(m.table.chats, chat_id) {
            Some(c) => c.title,
            None => "Chat "@ + int_text(chat_id as int),
        },
        messages: conversation_spec(
            chat_id,
            bucket_of(m.messages, chat_id),
            cursor_of(m.cursors, chat_id),
            m.my_user_id,
            m.book.users,
            m.table.chats,
        ),
    }
}

/// The search results as the UI shows them.
pub open spec fn search_ui(m: ShellModel) -> UiView {
    UiView::SearchResults { query: m.search.query, chats: search_rows(m.search.ids, m.table.chats) }
}

/// The contact panel as the UI shows it.
pub open spec fn contacts_ui(m: ShellModel) -> UiView {
    UiView::Contacts(m.book.contacts.map_values(|id: i64| contact_row(m.book.meta, id)))
}

pub open spec fn close_view() -> RequestView {
    RequestView::Close { extra: "close"@ }
}

/// `begin_close`: the first call sends `close` (never `logOut`) and logs
/// `closing` after `ui`; later calls only pass `ui` on.
pub open spec fn begin_close_spec(m: ShellModel, ui: Seq<UiView>) -> (ShellModel, ShellEffectView) {
    if m.closing || m.finished {
        (m, effect(Seq::empty(), ui))
    } else {
        (ShellModel { closing: true, ..m }, effect(seq![close_view()], ui.push(UiView::Log("closing"@))))
    }
}

/// A fatal condition: the session fails, shows the message, and closes.
pub open spec fn fail_spec(m: ShellModel, message: Seq<char>) -> (ShellModel, ShellEffectView) {
    let m1 = ShellModel { failed: true, ..m };
    let (m2, e) = begin_close_spec(m1, seq![UiView::Fatal(message), UiView::Status(message)]);
    (m2, effect(e.send, seq![UiView::Fatal(message), UiView::Status(message)]))
}

pub open spec fn get_chats_view(limit: i32) -> RequestView {
    RequestView::GetChats { chat_list: ChatList::Main, limit, extra: "getChats"@ }
}

pub open spec fn load_chats_view(limit: i32) -> RequestView {
    RequestView::LoadChats { chat_list: ChatList::Main, limit, extra: "loadChats"@ }
}

/// Another `getChats` page, at most three; after that the list as it is.
pub open spec fn request_chats_spec(m: ShellModel) -> (ShellModel, ShellEffectView) {
    if m.get_chats_sent >= 3 {
        (m, effect(Seq::empty(), seq![chat_list_ui(m)]))
    } else {
        (
            ShellModel { get_chats_sent: (m.get_chats_sent + 1) as u8, ..m },
            effect(seq![get_chats_view(m.cfg.chat_limit)], Seq::empty()),
        )
    }
}

pub const NOT_LOGGED_IN: &'static str = "Not logged in. This window does not ask for a phone number, code, or password. Point --database at a copy of a logged-in Mithka database.";
pub const LOGGING_OUT: &'static str = "TDLib is logging out. This program never sends logOut.";
pub const NO_FURTHER_PAGES: &'static str = "loadChats: local chat list has no further pages";

pub open spec fn bool_text(b: bool) -> Seq<char> {
    if b { "true"@ } else { "false"@ }
}

pub open spec fn legacy_line(encrypted: bool) -> Seq<char> {
    "auth: legacy authorizationStateWaitEncryptionKey (is_encrypted="@ + bool_text(encrypted)
        + "); sending an empty checkDatabaseEncryptionKey"@
}

pub open spec fn check_key_view() -> RequestView {
    RequestView::CheckDatabaseEncryptionKey { encryption_key: ""@, extra: "checkDatabaseEncryptionKey"@ }
}

pub open spec fn get_me_view() -> RequestView {
    RequestView::GetMe { extra: "getMe"@ }
}

/// `updateAuthorizationState`. The parameters and the empty key are sent
/// once each; `Ready` asks for the user and the main list; a state that
/// wants a phone number, code or password is only reported, since this
/// session never asks for them; logging out is fatal.
pub open spec fn auth_spec(m: ShellModel, state: Seq<char>, encrypted: bool) -> (ShellModel, ShellEffectView) {
    let u0 = seq![UiView::Log("auth: "@ + state), UiView::Status(status_for_spec(state))];
    if state == "authorizationStateWaitTdlibParameters"@ && !m.sent_parameters && !m.closing {
        (
            ShellModel { sent_parameters: true, ..m },
            effect(seq![params_view(m.cfg)], u0.push(UiView::Log(SENDING_PARAMETERS@))),
        )
    } else if state == "authorizationStateWaitEncryptionKey"@ && !m.closing {
        let u = u0.push(UiView::Log(legacy_line(encrypted)));
        if m.sent_encryption_check {
            (m, effect(Seq::empty(), u))
        } else {
            (ShellModel { sent_encryption_check: true, ..m }, effect(seq![check_key_view()], u))
        }
    } else if state == "authorizationStateReady"@ && !m.ready && !m.closing {
        let (m2, e) = request_chats_spec(ShellModel { ready: true, ..m });
        (
            m2,
            effect(
                seq![get_me_view(), load_chats_view(m.cfg.chat_limit)] + e.send,
                u0 + seq![UiView::Log("Ready"@), UiView::Ready, UiView::Status("Ready"@)] + e.ui,
            ),
        )
    } else if is_incomplete_state(state) {
        (m, effect(Seq::empty(), seq![UiView::Log("auth: "@ + state), UiView::Status(NOT_LOGGED_IN@)]))
    } else if state == "authorizationStateLoggingOut"@ {
        fail_spec(m, LOGGING_OUT@)
    } else if state == "authorizationStateClosed"@ {
        (ShellModel { finished: true, ..m }, effect(Seq::empty(), u0.push(UiView::Log("closed"@))))
    } else {
        (m, effect(Seq::empty(), u0))
    }
}

/// `ok`, the reply to a request that returns nothing.
pub open spec fn ok_spec(m: ShellModel, extra: Seq<char>) -> (ShellModel, ShellEffectView) {
    if extra == "setTdlibParameters"@ {
        (m, effect(Seq::empty(), seq![UiView::Log("setTdlibParameters accepted"@)]))
    } else if extra == "checkDatabaseEncryptionKey"@ {
        (m, effect(Seq::empty(), seq![UiView::Log("checkDatabaseEncryptionKey accepted"@)]))
    } else if extra == "loadChats"@ && m.ready {
        request_chats_spec(m)
    } else {
        (m, nothing())
    }
}

/// The chat of a `history:<id>` tag.
pub open spec fn history_extra_id(extra: Seq<char>) -> Option<i64> {
    if starts_with_seq(extra, "history:"@) { parse_i64_seq(extra.skip(8)) } else { None }
}

/// Tags of requests whose errors are only logged.
pub open spec fn quiet_extra(extra: Seq<char>) -> bool {
    starts_with_seq(extra, "getChat:"@) || starts_with_seq(extra, "history:"@) || starts_with_seq(extra, "getUser:"@)
        || starts_with_seq(extra, "download:"@) || starts_with_seq(extra, "loadChats:folder:"@)
        || starts_with_seq(extra, "getChats:folder:"@) || starts_with_seq(extra, "view:"@)
        || starts_with_seq(extra, "openChat:"@) || starts_with_seq(extra, "closeChat:"@)
        || starts_with_seq(extra, "marked:"@)
}

/// The logged text of an error: the error, and the hint for it on a second
/// line.
pub open spec fn rendered_error(code: i64, message: Seq<char>, extra: Seq<char>) -> Seq<char> {
    error_line(code, message) + match explain_spec(code, message, extra) {
        Some(h) => "\nhint: "@ + h,
        None => Seq::empty(),
    }
}

/// `error`. A `loadChats` 404 ends the local list; a failed history page is
/// no longer in flight; a search error marks its search; errors of
/// contacts, of opening a contact, and of chat, user, file and view
/// requests are reported; errors of the parameters, the key, ones with a
/// hint, and 401 are fatal; others are logged.
pub open spec fn error_spec_of(m: ShellModel, code: i64, message: Seq<char>, extra: Seq<char>) -> (ShellModel, ShellEffectView) {
    let rendered = rendered_error(code, message, extra);
    if extra == "loadChats"@ && code == 404 {
        let (m2, e) = request_chats_spec(m);
        (m2, effect(e.send, seq![UiView::Log(NO_FURTHER_PAGES@)] + e.ui))
    } else {
        let m1 = match history_extra_id(extra) {
            Some(c) => ShellModel { history: cancel_spec(m.history, c), ..m },
            None => m,
        };
        match search_generation_spec(extra) {
            Some(g) => {
                let current = g == m1.search.generation;
                (
                    ShellModel { search: error_spec(m1.search, g), ..m1 },
                    effect(
                        Seq::empty(),
                        seq![UiView::Log(rendered)] + if current {
                            seq![UiView::Status("Search error "@ + int_text(code as int) + ": "@ + message)]
                        } else {
                            Seq::empty()
                        },
                    ),
                )
            },
            None => if extra == "getContacts"@ {
                (
                    m1,
                    effect(
                        Seq::empty(),
                        seq![UiView::Log(rendered), UiView::Status("Contacts error "@ + int_text(code as int) + ": "@ + message)],
                    ),
                )
            } else if starts_with_seq(extra, "createPrivateChat:"@) {
                (
                    m1,
                    effect(Seq::empty(), seq![UiView::Log(rendered), UiView::Status("Could not open contact: "@ + message)]),
                )
            } else if quiet_extra(extra) {
                (m1, effect(Seq::empty(), seq![UiView::Log(rendered)]))
            } else if extra == "setTdlibParameters"@ || extra == "checkDatabaseEncryptionKey"@
                || explain_spec(code, message, extra) is Some || code == 401 {
                fail_spec(m1, rendered)
            } else {
                (m1, effect(Seq::empty(), seq![UiView::Log(rendered)]))
            },
        }
    }
}

pub open spec fn get_chat_search_view(id: i64) -> RequestView {
    RequestView::GetChat { chat_id: id, extra: "getChat:search:"@ + int_text(id as int) }
}

pub open spec fn load_folder_view(folder: i32, limit: i32) -> RequestView {
    RequestView::LoadChats { chat_list: ChatList::Folder(folder), limit, extra: "loadChats:folder:"@ + int_text(folder as int) }
}

pub open spec fn get_folder_view(folder: i32, limit: i32) -> RequestView {
    RequestView::GetChats { chat_list: ChatList::Folder(folder), limit, extra: "getChats:folder:"@ + int_text(folder as int) }
}

/// The folder of a `getChats:folder:<id>` tag whose id reads as an `i32`.
pub open spec fn folder_reply_id(extra: Seq<char>) -> Option<i32> {
    match parse_i64_seq(extra.skip(16)) {
        Some(v) => if i32::MIN <= v <= i32::MAX { Some(v as i32) } else { None },
        None => None,
    }
}

/// `chats`: the reply for a folder, for a search, or for the main list.
/// A folder's or the main list's chats are taken into the table and the
/// ones without a title are asked for; an empty first main list asks TDLib
/// to load the local list once. A search reply adds its hits.
pub open spec fn chats_reply_spec(m: ShellModel, extra: Seq<char>, ids: Seq<i64>) -> (ShellModel, ShellEffectView) {
    let limit = m.cfg.chat_limit;
    if starts_with_seq(extra, "getChats:folder:"@) {
        match folder_reply_id(extra) {
            Some(f) => {
                let shown = take_upto(ids, limit as int);
                let m1 = ShellModel {
                    table: ChatTableView {
                        orders: folder_listing(m.table.orders, shown, f),
                        chats: known_all(m.table.chats, shown),
                        ..m.table
                    },
                    ..m
                };
                (
                    m1,
                    effect(
                        shown.filter(title_missing(m.table.chats)).map_values(|id: i64| get_chat_view(id)),
                        seq![chat_list_ui(m1)],
                    ),
                )
            },
            None => (m, nothing()),
        }
    } else {
        match search_generation_spec(extra) {
            Some(g) => {
                let (s2, r) = reply_spec(m.search, g, ids, m.table.chats);
                match r {
                    None => (m, nothing()),
                    Some((missing, done)) => {
                        let m1 = ShellModel { search: s2, ..m };
                        (
                            m1,
                            effect(
                                missing.map_values(|id: i64| get_chat_search_view(id)),
                                seq![search_ui(m1)] + if done {
                                    seq![UiView::Status(search_status_spec(search_rows(s2.ids, m.table.chats).len()))]
                                } else {
                                    Seq::empty()
                                },
                            ),
                        )
                    },
                }
            },
            None => {
                let shown = take_upto(ids, limit as int);
                let m1 = ShellModel {
                    table: ChatTableView { listed: shown, chats: synth_all(m.table.chats, shown), ..m.table },
                    ..m
                };
                if shown.len() == 0 && !m.did_load {
                    (ShellModel { did_load: true, ..m1 }, effect(seq![load_chats_view(limit)], Seq::empty()))
                } else {
                    (
                        m1,
                        effect(
                            shown.filter(title_missing(m.table.chats)).map_values(|id: i64| get_chat_view(id)),
                            seq![chat_list_ui(m1)],
                        ),
                    )
                }
            },
        }
    }
}

/// The transcript of `chat_id` when it is the open chat.
pub open spec fn conversation_if_open(m: ShellModel, chat_id: i64) -> Seq<UiView> {
    if m.history.open_chat == Some(chat_id) { seq![conversation_ui(m, chat_id)] } else { Seq::empty() }
}

pub open spec fn with_table(m: ShellModel, t: ChatTableView) -> ShellModel {
    ShellModel { table: t, ..m }
}

/// `updateChatTitle`: a known chat takes the title; the list, and the
/// transcript when the chat is open, are shown again.
pub open spec fn title_spec(m: ShellModel, id: Option<i64>, title: Option<String>) -> (ShellModel, ShellEffectView) {
    match (id, title) {
        (Some(i), Some(t)) => {
            let m1 = with_table(
                m,
                ChatTableView {
                    chats: edit_chat(m.table.chats, i, |c: ChatItemView| ChatItemView { title: t@, ..c }),
                    ..m.table
                },
            );
            (m1, effect(Seq::empty(), seq![chat_list_ui(m1)] + conversation_if_open(m1, i)))
        },
        _ => (m, nothing()),
    }
}

/// `updateChatPosition`: a folder or main-list position changes the list;
/// other lists change nothing.
pub open spec fn position_event_spec(m: ShellModel, id: Option<i64>, p: ChatPosition) -> (ShellModel, ShellEffectView) {
    match id {
        Some(i) => if p.list is Other {
            (m, nothing())
        } else {
            let m1 = with_table(m, position_spec(m.table, i, p));
            (m1, effect(Seq::empty(), seq![chat_list_ui(m1)]))
        },
        None => (m, nothing()),
    }
}

/// `updateChatReadInbox`: a known chat takes the unread count.
pub open spec fn read_inbox_spec(m: ShellModel, id: Option<i64>, count: Option<i64>) -> (ShellModel, ShellEffectView) {
    match id {
        Some(i) => if chat_with_id(m.table.chats, i) is Some {
            let m1 = with_table(
                m,
                ChatTableView {
                    chats: edit_chat(m.table.chats, i, |c: ChatItemView| ChatItemView { unread: unread_spec(count), ..c }),
                    ..m.table
                },
            );
            (m1, effect(Seq::empty(), seq![chat_list_ui(m1)]))
        } else {
            (m, nothing())
        },
        None => (m, nothing()),
    }
}

/// `updateChatIsMarkedAsUnread`: a known chat takes the mark.
pub open spec fn marked_spec(m: ShellModel, id: Option<i64>, marked: bool) -> (ShellModel, ShellEffectView) {
    match id {
        Some(i) => if chat_with_id(m.table.chats, i) is Some {
            let m1 = with_table(
                m,
                ChatTableView {
                    chats: edit_chat(m.table.chats, i, |c: ChatItemView| ChatItemView { marked_unread: marked, ..c }),
                    ..m.table
                },
            );
            (m1, effect(Seq::empty(), seq![chat_list_ui(m1)]))
        } else {
            (m, nothing())
        },
        None => (m, nothing()),
    }
}

/// `updateChatReadOutbox`: the peer's read cursor moves; the open chat's
/// transcript is shown again when it moved.
pub open spec fn read_outbox_spec(m: ShellModel, id: Option<i64>, message_id: Option<i64>) -> (ShellModel, ShellEffectView) {
    match (id, message_id) {
        (Some(i), Some(mid)) => {
            let changed = find_where(m.cursors, cursor_is(i)) != Some((i, mid));
            let m1 = ShellModel { cursors: put_where(m.cursors, cursor_is(i), (i, mid)), ..m };
            (m1, if changed { effect(Seq::empty(), conversation_if_open(m1, i)) } else { nothing() })
        },
        _ => (m, nothing()),
    }
}

/// `updateChatLastMessage`: the preview and positions of the chat change.
pub open spec fn last_message_event_spec(
    m: ShellModel,
    id: Option<i64>,
    last: LastMessage,
    positions: Seq<ChatPosition>,
) -> (ShellModel, ShellEffectView) {
    match id {
        Some(i) => {
            let m1 = with_table(m, last_message_spec(m.table, i, last, positions));
            (m1, effect(Seq::empty(), seq![chat_list_ui(m1)]))
        },
        None => (m, nothing()),
    }
}

pub open spec fn download_view(id: i32) -> RequestView {
    RequestView::DownloadFile { file_id: id, priority: 16, extra: "download:"@ + int_text(id as int) }
}

/// Watching a file for `role`: a finished file is applied at once, another
/// is asked for once.
pub open spec fn watch_file_spec(m: ShellModel, f: FileRef, role: FileRole) -> (ShellModel, Seq<RequestView>) {
    match f.id {
        None => (m, Seq::empty()),
        Some(id) => {
            let (w2, step) = watch_spec(m.files, id, role, opt_seq(f.completed), f.can_download);
            let m1 = ShellModel { files: w2, ..m };
            match step {
                Some(Some(path)) => {
                    let (t, b, ms, _) = downloaded_spec(w2.roles, m1.table, m1.book, m1.messages, id, path);
                    (ShellModel { table: t, book: b, messages: ms, ..m1 }, Seq::empty())
                },
                Some(None) => (m1, seq![download_view(id)]),
                None => (m1, Seq::empty()),
            }
        },
    }
}

/// `updateChatPhoto`: a known chat drops its avatar; a new photo's small
/// file is watched.
pub open spec fn chat_photo_spec(m: ShellModel, id: Option<i64>, photo_null: bool, small: Option<FileRef>) -> (ShellModel, ShellEffectView) {
    match id {
        Some(i) => if chat_with_id(m.table.chats, i) is Some {
            let m1 = with_table(
                m,
                ChatTableView {
                    chats: edit_chat(m.table.chats, i, |c: ChatItemView| ChatItemView { avatar: None, ..c }),
                    ..m.table
                },
            );
            if photo_null {
                (m1, effect(Seq::empty(), seq![chat_list_ui(m1)]))
            } else {
                let (m2, send) = match small {
                    Some(f) => watch_file_spec(m1, f, FileRole::Avatar(i)),
                    None => (m1, Seq::empty()),
                };
                (m2, effect(send, seq![chat_list_ui(m2)]))
            }
        } else {
            (m, nothing())
        },
        None => (m, nothing()),
    }
}

/// `file` / `updateFile`: a finished download goes where its role says,
/// and what shows it is shown again.
pub open spec fn file_spec(m: ShellModel, f: FileRef) -> (ShellModel, ShellEffectView) {
    match (f.completed, f.id) {
        (Some(path), Some(id)) => {
            let (t, b, ms, changed) = downloaded_spec(m.files.roles, m.table, m.book, m.messages, id, path@);
            let m1 = ShellModel { table: t, book: b, messages: ms, ..m };
            if !changed {
                (m1, nothing())
            } else {
                match role_of(m.files.roles, id) {
                    Some(FileRole::Avatar(_)) => (m1, effect(Seq::empty(), seq![chat_list_ui(m1)])),
                    Some(FileRole::ContactAvatar(_)) => (m1, effect(Seq::empty(), seq![contacts_ui(m1)])),
                    Some(FileRole::MessagePhoto(chat_id, _, _)) => (m1, effect(Seq::empty(), conversation_if_open(m1, chat_id))),
                    None => (m1, nothing()),
                }
            }
        },
        _ => (m, nothing()),
    }
}

/// `updateChatFolders`: the folders are replaced; an active folder that is
/// gone falls back to the main list.
pub open spec fn folders_spec(m: ShellModel, folders: Seq<(i32, Seq<char>)>) -> (ShellModel, ShellEffectView) {
    let active = match m.active_folder {
        Some(a) => if exists|k: int| 0 <= k < folders.len() && (#[trigger] folders[k]).0 == a { Some(a) } else { None },
        None => None,
    };
    let m1 = ShellModel { folders, active_folder: active, ..m };
    (m1, effect(Seq::empty(), seq![UiView::Folders(folders), chat_list_ui(m1)]))
}

pub const NOT_READY_CONTACTS: &'static str = "Contacts are available after TDLib is ready.";
pub const NOT_READY_SEARCH: &'static str = "Search is available after TDLib is ready.";

pub open spec fn open_chat_view(id: i64) -> RequestView {
    RequestView::OpenChat { chat_id: id, extra: "openChat:"@ + int_text(id as int) }
}

pub open spec fn close_chat_view(id: i64) -> RequestView {
    RequestView::CloseChat { chat_id: id, extra: "closeChat:"@ + int_text(id as int) }
}

pub open spec fn unmark_view(id: i64) -> RequestView {
    RequestView::ToggleChatIsMarkedAsUnread {
        chat_id: id,
        is_marked_as_unread: false,
        extra: "marked:"@ + int_text(id as int),
    }
}

pub open spec fn history_view(id: i64, from: i64) -> RequestView {
    RequestView::GetChatHistory {
        chat_id: id,
        from_message_id: from,
        limit: HISTORY_LIMIT,
        extra: "history:"@ + int_text(id as int),
    }
}

/// Opening a chat: the previous chat is closed, this one opened, unmarked
/// when it was marked unread, and its latest page asked for.
pub open spec fn select_spec(m: ShellModel, chat_id: i64) -> (ShellModel, ShellEffectView) {
    if !m.ready || m.failed {
        (m, nothing())
    } else {
        let (h2, close) = open_spec(m.history, chat_id);
        let m1 = ShellModel { history: h2, ..m };
        let marked = match chat_with_id(m.table.chats, chat_id) {
            Some(c) => c.marked_unread,
            None => false,
        };
        (
            m1,
            effect(
                (match close {
                    Some(p) => seq![close_chat_view(p)],
                    None => Seq::empty(),
                }) + seq![open_chat_view(chat_id)] + (if marked { seq![unmark_view(chat_id)] } else { Seq::empty() })
                    + seq![history_view(chat_id, 0)],
                seq![conversation_ui(m1, chat_id)],
            ),
        )
    }
}

/// An older page of the open chat, anchored on its oldest stored message,
/// while none is in flight and older pages remain.
pub open spec fn load_older_spec(m: ShellModel, chat_id: i64) -> (ShellModel, ShellEffectView) {
    if !m.ready || m.failed {
        (m, nothing())
    } else {
        let oldest = min_id(bucket_of(m.messages, chat_id).map_values(|e: (i64, StoredView)| e.0));
        match older_anchor(m.history, chat_id, oldest) {
            Some(f) => (
                ShellModel {
                    history: HistoryView {
                        pending: set_insert(m.history.pending, chat_id),
                        from: put_where(m.history.from, crate::history::anchor_is(chat_id), (chat_id, f)),
                        ..m.history
                    },
                    ..m
                },
                effect(seq![history_view(chat_id, f)], Seq::empty()),
            ),
            None => (m, nothing()),
        }
    }
}

/// Sending text: the trimmed text, when there is any and the session is
/// ready.
pub open spec fn send_text_spec(m: ShellModel, chat_id: i64, text: Seq<char>) -> (ShellModel, ShellEffectView) {
    let t = trim_seq(text);
    if t.len() == 0 || !m.ready || m.failed {
        (m, nothing())
    } else {
        (
            m,
            effect(
                seq![RequestView::SendMessage { chat_id, text: t, extra: "send:"@ + int_text(chat_id as int) }],
                Seq::empty(),
            ),
        )
    }
}

/// Choosing a folder (`None` the main list): the list shows it, and its
/// chats are asked for the first time it is chosen.
pub open spec fn select_folder_spec(m: ShellModel, folder: Option<i32>) -> (ShellModel, ShellEffectView) {
    if !m.ready || m.failed {
        (m, nothing())
    } else {
        let m1 = ShellModel { active_folder: folder, ..m };
        match folder {
            Some(f) => if !m.folder_fetches.contains(f) {
                (
                    ShellModel { folder_fetches: m.folder_fetches.push(f), ..m1 },
                    effect(
                        seq![load_folder_view(f, m.cfg.chat_limit), get_folder_view(f, m.cfg.chat_limit)],
                        seq![chat_list_ui(m1)],
                    ),
                )
            } else {
                (m1, effect(Seq::empty(), seq![chat_list_ui(m1)]))
            },
            None => (m1, effect(Seq::empty(), seq![chat_list_ui(m1)])),
        }
    }
}

pub open spec fn search_requests(query: Seq<char>, limit: i32, generation: u64, public: Option<Seq<char>>) -> Seq<RequestView> {
    seq![
        RequestView::SearchChats { query, limit, extra: "searchChats:"@ + decimal(generation as nat) },
        RequestView::SearchChatsOnServer { query, limit, extra: "searchChatsOnServer:"@ + decimal(generation as nat) },
    ] + match public {
        Some(p) => seq![RequestView::SearchPublicChats { query: p, extra: "searchPublicChats:"@ + decimal(generation as nat) }],
        None => Seq::empty(),
    }
}

/// A search query: a new search; an empty query clears it, and a session
/// that is not ready does not search.
pub open spec fn search_command_spec(m: ShellModel, query: Seq<char>) -> (ShellModel, ShellEffectView) {
    let ready = m.ready && !m.failed;
    let s2 = start_spec(m.search, query, ready);
    let m1 = ShellModel { search: s2, ..m };
    if s2.query.len() == 0 {
        (m1, effect(Seq::empty(), seq![search_ui(m1)] + if ready { seq![UiView::Status("Ready"@)] } else { Seq::empty() }))
    } else if !ready {
        (m1, effect(Seq::empty(), seq![search_ui(m1), UiView::Status(NOT_READY_SEARCH@)]))
    } else {
        (
            m1,
            effect(
                search_requests(s2.query, search_limit(m.cfg.chat_limit), s2.generation, public_search_query_spec(s2.query)),
                seq![search_ui(m1), UiView::Status("Searching…"@)],
            ),
        )
    }
}

/// Asking for the contacts, once the session is ready.
pub open spec fn load_contacts_spec(m: ShellModel) -> (ShellModel, ShellEffectView) {
    if !m.ready || m.failed {
        (m, effect(Seq::empty(), seq![UiView::Status(NOT_READY_CONTACTS@)]))
    } else {
        (m, effect(seq![RequestView::GetContacts { extra: "getContacts"@ }], Seq::empty()))
    }
}

/// Opening a contact's private chat, once the session is ready.
pub open spec fn open_contact_spec(m: ShellModel, user_id: i64) -> (ShellModel, ShellEffectView) {
    if !m.ready || m.failed || user_id == 0 {
        (m, effect(Seq::empty(), seq![UiView::Status(NOT_READY_CONTACTS@)]))
    } else {
        (
            m,
            effect(
                seq![RequestView::CreatePrivateChat { user_id, extra: "createPrivateChat:"@ + int_text(user_id as int) }],
                seq![UiView::Status("Opening chat…"@)],
            ),
        )
    }
}

/// A TDLib `chat` object as the session reads it.
pub struct ChatObject {
    pub info: ChatInfo,
    /// `last_read_outbox_message_id`, when it is there.
    pub last_read_outbox: Option<i64>,
    /// The `small` file of a `photo` that is not null.
    pub small_photo: Option<FileRef>,
}

/// A TDLib `user` object as the session reads it.
pub struct UserObject {
    pub info: UserInfo,
    /// `profile_photo.small`, when it is there.
    pub small_photo: Option<FileRef>,
}

/// The user of a `createPrivateChat:<id>` tag.
pub open spec fn private_chat_extra(extra: Seq<char>) -> Option<i64> {
    if starts_with_seq(extra, "createPrivateChat:"@) { parse_i64_seq(extra.skip(18)) } else { None }
}

/// The search rows and, once the search is complete without error, its
/// status, when the chat is a hit of the current search.
pub open spec fn search_rows_if_hit(m: ShellModel, id: i64) -> Seq<UiView> {
    if m.search.query.len() > 0 && m.search.ids.contains(id) {
        seq![search_ui(m)] + if m.search.pending == 0 && !m.search.error {
            seq![UiView::Status(search_status_spec(search_rows(m.search.ids, m.table.chats).len()))]
        } else {
            Seq::empty()
        }
    } else {
        Seq::empty()
    }
}

/// A chat object remembered: its read cursor, its fields and positions,
/// and its small photo watched. Also whether the read cursor moved, and
/// the download to ask for.
pub open spec fn remember_object_spec(m: ShellModel, c: ChatObject) -> (ShellModel, bool, Seq<RequestView>) {
    let id = c.info.id;
    let outbox_changed = match c.last_read_outbox {
        Some(mid) => find_where(m.cursors, cursor_is(id)) != Some((id, mid)),
        None => false,
    };
    let cursors = match c.last_read_outbox {
        Some(mid) => put_where(m.cursors, cursor_is(id), (id, mid)),
        None => m.cursors,
    };
    let m1 = ShellModel { cursors, table: remember_spec(m.table, c.info, m.cfg.chat_limit), ..m };
    let (m2, downloads) = match c.small_photo {
        Some(f) => watch_file_spec(m1, f, FileRole::Avatar(id)),
        None => (m1, Seq::empty()),
    };
    (m2, outbox_changed, downloads)
}

/// A chat created for a contact is opened and selected in the UI.
pub open spec fn open_created_spec(m: ShellModel, id: i64, e: ShellEffectView) -> (ShellModel, ShellEffectView) {
    let (m4, o) = select_spec(m, id);
    (
        m4,
        effect(
            e.send + o.send,
            seq![UiView::OpenChat(id)] + e.ui + o.ui + if m4.ready { seq![UiView::Status("Ready"@)] } else { Seq::empty() },
        ),
    )
}

/// `chat` / `updateNewChat`. The chat is remembered; a search hit that was
/// not listed stays off the main list; the list, a search showing the
/// chat, and the open transcript when its read cursor moved are shown
/// again; a chat created for a contact is opened.
pub open spec fn chat_event_spec(m: ShellModel, extra: Seq<char>, chat: Option<ChatObject>) -> (ShellModel, ShellEffectView) {
    match chat {
        None => (m, effect(Seq::empty(), seq![chat_list_ui(m)])),
        Some(c) => {
            let id = c.info.id;
            let was_listed = m.table.listed.contains(id);
            let (m2, outbox_changed, downloads) = remember_object_spec(m, c);
            let m3 = if starts_with_seq(extra, "getChat:search:"@) {
                with_table(m2, detach_spec(m2.table, id, was_listed))
            } else {
                m2
            };
            let ui = seq![chat_list_ui(m3)] + search_rows_if_hit(m3, id) + if outbox_changed
                && m3.history.open_chat == Some(id) {
                seq![conversation_ui(m3, id)]
            } else {
                Seq::empty()
            };
            match private_chat_extra(extra) {
                Some(_) => open_created_spec(m3, id, effect(downloads, ui)),
                None => (m3, effect(downloads, ui)),
            }
        },
    }
}

/// The avatar shown for a contact.
pub open spec fn contact_avatar(m: ShellModel, id: i64) -> Option<Seq<char>> {
    match meta_of(m.book.meta, id) {
        Some(meta) => meta.avatar,
        None => None,
    }
}

/// A user object taken: the name and contact details, and a contact's
/// small profile photo watched. Also whether the contact panel changed,
/// and the download to ask for.
pub open spec fn user_update_spec(m: ShellModel, o: UserObject) -> (ShellModel, bool, Seq<RequestView>) {
    let id = o.info.id;
    let (b1, changed) = note_contact_spec(m.book, o.info);
    let m1 = ShellModel { book: b1, ..m };
    let (m2, downloads) = if b1.contacts.contains(id) && !o.info.photo_null && o.small_photo is Some {
        watch_file_spec(m1, o.small_photo->0, FileRole::ContactAvatar(id))
    } else {
        (m1, Seq::empty())
    };
    (m2, changed || contact_avatar(m1, id) != contact_avatar(m2, id), downloads)
}

/// `user` / `updateUser`. The reply to `getMe` names the session's user;
/// the user is taken; the contact panel is shown again when it changed,
/// and the open transcript when the user has a name.
pub open spec fn user_spec(m: ShellModel, extra: Seq<char>, user: Option<UserObject>) -> (ShellModel, ShellEffectView) {
    match user {
        None => (m, nothing()),
        Some(o) => {
            let id = o.info.id;
            let m0 = if extra == "getMe"@ { ShellModel { my_user_id: Some(id), ..m } } else { m };
            let (m2, contacts_changed, downloads) = user_update_spec(m0, o);
            (
                m2,
                effect(
                    downloads,
                    (if contacts_changed { seq![contacts_ui(m2)] } else { Seq::empty() }) + match m2.history.open_chat {
                        Some(open) => if user_name_of(m2.book.users, id) is Some {
                            seq![conversation_ui(m2, open)]
                        } else {
                            Seq::empty()
                        },
                        None => Seq::empty(),
                    },
                ),
            )
        },
    }
}

pub open spec fn get_user_view(id: i64) -> RequestView {
    RequestView::GetUser { user_id: id, extra: "getUser:"@ + int_text(id as int) }
}

/// `users` answering `getContacts`: the contact list becomes `ids`, the
/// users without details are asked for, and the panel shows the count.
pub open spec fn users_spec(m: ShellModel, extra: Seq<char>, ids: Seq<i64>) -> (ShellModel, ShellEffectView) {
    if extra != "getContacts"@ {
        (m, nothing())
    } else {
        let m1 = ShellModel {
            book: ContactBookView { contacts: ids, meta: m.book.meta.filter(in_ids(ids)), ..m.book },
            ..m
        };
        (
            m1,
            effect(
                ids.filter(lacks_meta(m.book.meta)).map_values(|id: i64| get_user_view(id)),
                seq![contacts_ui(m1), UiView::Status(decimal(ids.len()) + " contacts"@)],
            ),
        )
    }
}

/// A message's content when it is text or a photo, with the photo's
/// preview and largest files.
pub struct VisibleContent {
    pub content: MessageContent,
    pub preview_file: Option<FileRef>,
    pub full_file: Option<FileRef>,
}

/// A TDLib `message` as the session reads it.
pub struct IncomingMessage {
    /// The `@type` is `message`, or it has `content`.
    pub is_message: bool,
    pub chat_id: Option<i64>,
    pub id: Option<i64>,
    /// The content, when it can be shown.
    pub content: Option<VisibleContent>,
    /// `date`, zero when it is missing.
    pub date: i64,
    /// `sender_id.user_id` of a `messageSenderUser`.
    pub sender_user: Option<i64>,
    /// `sender_id.chat_id` of a `messageSenderChat`.
    pub sender_chat: Option<i64>,
    pub outgoing: bool,
    /// `sender_id.user_id`, whatever the sender's type.
    pub any_sender_user: Option<i64>,
}

/// The stored form of a message with visible content.
pub open spec fn stored_from(msg: IncomingMessage, v: VisibleContent) -> StoredView {
    StoredView {
        sender_id: msg.sender_user,
        sender_chat: msg.sender_chat,
        outgoing: msg.outgoing,
        text: v.content.text@,
        date: msg.date,
        kind: v.content.kind,
        photo: opt_text(v.content.photo),
        photo_full: opt_text(v.content.photo_full),
        photo_full_width: v.content.photo_full_width,
        photo_full_height: v.content.photo_full_height,
        links: links_view(v.content.links@),
    }
}

pub open spec fn file_id_of(f: Option<FileRef>) -> Option<i32> {
    match f {
        Some(x) => x.id,
        None => None,
    }
}

/// The photo files of a message watched: one file for both paths when the
/// preview and the largest size are the same file, else each one there.
pub open spec fn watch_photos_spec(m: ShellModel, v: VisibleContent, chat_id: i64, id: i64) -> (ShellModel, Seq<RequestView>) {
    let p = file_id_of(v.preview_file);
    if p is Some && p == file_id_of(v.full_file) {
        watch_file_spec(m, v.preview_file->0, FileRole::MessagePhoto(chat_id, id, PhotoSlot::Both))
    } else {
        let (m1, d1) = match v.preview_file {
            Some(f) => watch_file_spec(m, f, FileRole::MessagePhoto(chat_id, id, PhotoSlot::Preview)),
            None => (m, Seq::empty()),
        };
        let (m2, d2) = match v.full_file {
            Some(f) => watch_file_spec(m1, f, FileRole::MessagePhoto(chat_id, id, PhotoSlot::Full)),
            None => (m1, Seq::empty()),
        };
        (m2, d1 + d2)
    }
}

/// A message remembered: a message with a chat, an id and visible content
/// is stored and its photos watched. Also the chat, the id, whether it
/// changed and whether it is new, and the downloads to ask for.
pub open spec fn remember_message_spec(m: ShellModel, msg: IncomingMessage) -> (ShellModel, Option<(i64, i64, bool, bool)>, Seq<RequestView>) {
    if !msg.is_message {
        (m, None, Seq::empty())
    } else {
        match (msg.chat_id, msg.id, msg.content) {
            (Some(c), Some(i), Some(v)) => {
                let (msgs, inserted, changed) = crate::messages::remember_spec(m.messages, c, i, stored_from(msg, v));
                let (m2, downloads) = watch_photos_spec(ShellModel { messages: msgs, ..m }, v, c, i);
                (m2, Some((c, i, changed, inserted)), downloads)
            },
            _ => (m, None, Seq::empty()),
        }
    }
}

/// `viewMessages` for the open chat's newest messages.
pub open spec fn view_request(m: ShellModel, chat_id: i64) -> Seq<RequestView> {
    let ids = view_ids_spec(bucket_of(m.messages, chat_id).map_values(|e: (i64, StoredView)| e.0));
    if m.history.open_chat != Some(chat_id) || ids.len() == 0 {
        Seq::empty()
    } else {
        seq![RequestView::ViewMessages { chat_id, message_ids: ids, extra: "view:"@ + int_text(chat_id as int) }]
    }
}

/// `message` / `updateNewMessage`: the message is remembered; the open
/// transcript is shown again when it changed, and the open chat's messages
/// are marked viewed when it is new or changed.
pub open spec fn message_event_spec(m: ShellModel, msg: IncomingMessage) -> (ShellModel, ShellEffectView) {
    let (m2, r, downloads) = remember_message_spec(m, msg);
    match r {
        None => (m, nothing()),
        Some((c, _, changed, inserted)) => (
            m2,
            effect(
                downloads + if changed || inserted { view_request(m2, c) } else { Seq::empty() },
                if changed && m2.history.open_chat == Some(c) { seq![conversation_ui(m2, c)] } else { Seq::empty() },
            ),
        ),
    }
}

/// What a batch of messages did: the state after it, the last chat a
/// message was remembered for, whether any changed, the new messages, the
/// unknown senders to ask for, and the downloads.
pub struct Batch {
    pub m: ShellModel,
    pub chat: Option<i64>,
    pub changed: bool,
    pub inserted: Seq<(i64, i64)>,
    pub fetch: Seq<i64>,
    pub downloads: Seq<RequestView>,
}

pub open spec fn batch_spec(m: ShellModel, msgs: Seq<IncomingMessage>) -> Batch
    decreases msgs.len(),
{
    if msgs.len() == 0 {
        Batch { m, chat: None, changed: false, inserted: Seq::empty(), fetch: Seq::empty(), downloads: Seq::empty() }
    } else {
        let b = batch_spec(m, msgs.drop_last());
        let msg = msgs.last();
        let (m2, r, d) = remember_message_spec(b.m, msg);
        match r {
            None => Batch { m: m2, downloads: b.downloads + d, ..b },
            Some((c, i, ch, ins)) => Batch {
                m: m2,
                chat: Some(c),
                changed: b.changed || ch,
                inserted: if ins { b.inserted.push((c, i)) } else { b.inserted },
                fetch: match msg.any_sender_user {
                    Some(u) => if user_name_of(m2.book.users, u) is None && m2.my_user_id != Some(u) {
                        b.fetch.push(u)
                    } else {
                        b.fetch
                    },
                    None => b.fetch,
                },
                downloads: b.downloads + d,
            },
        }
    }
}

pub open spec fn in_chat(chat_id: i64) -> spec_fn((i64, i64)) -> bool {
    |e: (i64, i64)| e.0 == chat_id
}

pub open spec fn message_part() -> spec_fn((i64, i64)) -> i64 {
    |e: (i64, i64)| e.1
}

/// The ids of the new messages of one chat.
pub open spec fn ids_in_chat(inserted: Seq<(i64, i64)>, chat_id: i64) -> Seq<i64> {
    inserted.filter(in_chat(chat_id)).map_values(message_part())
}

/// `messages`: each message is remembered; a history page ends its
/// request; the unknown senders are asked for, ascending and once each;
/// the transcript is shown again when a message changed, and the open
/// chat's messages are marked viewed.
pub open spec fn messages_spec(m: ShellModel, extra: Seq<char>, msgs: Seq<IncomingMessage>) -> (ShellModel, ShellEffectView) {
    let b = batch_spec(m, msgs);
    let (m3, chat) = match history_extra_id(extra) {
        Some(h) => (
            ShellModel {
                history: finish_spec(
                    b.m.history,
                    h,
                    ids_in_chat(b.inserted, h),
                    bucket_of(b.m.messages, h).len() == 0,
                ),
                ..b.m
            },
            if b.chat is Some { b.chat } else { Some(h) },
        ),
        None => (b.m, b.chat),
    };
    let shown = if chat is Some { chat } else { m3.history.open_chat };
    let ui = if b.changed {
        match shown {
            Some(c) => if m3.history.open_chat == Some(c) || m3.history.open_chat is None {
                seq![conversation_ui(m3, c)]
            } else {
                Seq::empty()
            },
            None => Seq::empty(),
        }
    } else {
        Seq::empty()
    };
    (
        m3,
        effect(
            dedup_spec(crate::seqs::sort_by_insertion(b.fetch, id_before())).map_values(|u: i64| get_user_view(u))
                + b.downloads + match chat {
                Some(c) => view_request(m3, c),
                None => Seq::empty(),
            },
            ui,
        ),
    )
}

/// `updateMessageContent`: for a chat the store has, content that cannot
/// be shown removes the message and other content replaces a stored
/// message's; its photos are watched and the open transcript shown again.
pub open spec fn message_content_spec(
    m: ShellModel,
    chat_id: Option<i64>,
    message_id: Option<i64>,
    content: Option<VisibleContent>,
) -> (ShellModel, ShellEffectView) {
    match (chat_id, message_id) {
        (Some(c), Some(i)) => {
            let (msgs, known) = content_spec(m.messages, c, i, match content {
                Some(v) => Some(v.content),
                None => None,
            });
            if !known {
                (m, nothing())
            } else {
                let m1 = ShellModel { messages: msgs, ..m };
                let (m2, downloads) = match content {
                    Some(v) => watch_photos_spec(m1, v, c, i),
                    None => (m1, Seq::empty()),
                };
                (m2, effect(downloads, conversation_if_open(m2, c)))
            }
        },
        _ => (m, nothing()),
    }
}

/// One TDLib event, with the fields the session reads. A field that TDLib
/// left out, or sent with another type, reads as `None`, or as the value
/// the session takes for a missing field.
pub enum ShellEvent {
    /// `updateAuthorizationState`: the state's `@type` (`unknown` when
    /// missing) and its `is_encrypted` flag.
    AuthorizationState { state: String, is_encrypted: bool },
    /// `error`: `code` (zero when missing), `message` and `@extra`.
    Error { code: i64, message: String, extra: String },
    /// `ok`.
    Accepted { extra: String },
    /// `chats`: the integer entries of `chat_ids`.
    Chats { extra: String, chat_ids: Vec<i64> },
    /// `chat` / `updateNewChat`; `None` when the chat has no id.
    Chat { extra: String, chat: Option<ChatObject> },
    /// `updateChatTitle`.
    ChatTitle { chat_id: Option<i64>, title: Option<String> },
    /// `updateChatPosition`.
    ChatPosition { chat_id: Option<i64>, position: ChatPosition },
    /// `updateChatReadInbox`.
    ReadInbox { chat_id: Option<i64>, unread_count: Option<i64> },
    /// `updateChatReadOutbox`.
    ReadOutbox { chat_id: Option<i64>, message_id: Option<i64> },
    /// `updateChatIsMarkedAsUnread`.
    MarkedUnread { chat_id: Option<i64>, marked: bool },
    /// `updateChatLastMessage`.
    LastMessage { chat_id: Option<i64>, last_message: LastMessage, positions: Vec<ChatPosition> },
    /// `updateChatPhoto`: whether `photo` is null, and its small file.
    ChatPhoto { chat_id: Option<i64>, photo_null: bool, small: Option<FileRef> },
    /// `file` / `updateFile`.
    File(FileRef),
    /// `chatFolders` / `updateChatFolders`: the folders with an id.
    Folders(Vec<FolderItem>),
    /// `user` / `updateUser`; `None` when the user has no id.
    User { extra: String, user: Option<UserObject> },
    /// `users`: the integer entries of `user_ids`.
    Users { extra: String, user_ids: Vec<i64> },
    /// `messages`: the objects of `messages`, `None` when it is no array.
    Messages { extra: String, messages: Option<Vec<IncomingMessage>> },
    /// `message` / `updateNewMessage`.
    Message(IncomingMessage),
    /// `updateMessageContent`.
    MessageContent { chat_id: Option<i64>, message_id: Option<i64>, content: Option<VisibleContent> },
    /// Any other `@type`.
    Other,
}

/// An error that closing a session brings: 406, or an aborted request.
pub open spec fn closing_noise(code: i64, message: Seq<char>) -> bool {
    code == 406 || contains_seq(lower_seq(message), "aborted"@)
}

/// What the session does with an event. A finished session does nothing;
/// a closing one only follows the authorization state and logs errors that
/// closing does not bring; otherwise each event goes to its handler.
pub open spec fn event_spec(m: ShellModel, e: ShellEvent) -> (ShellModel, ShellEffectView) {
    if m.finished {
        (m, nothing())
    } else if m.closing {
        match e {
            ShellEvent::AuthorizationState { state, is_encrypted } => auth_spec(m, state@, is_encrypted),
            ShellEvent::Error { code, message, .. } => if closing_noise(code, message@) {
                (m, nothing())
            } else {
                (m, effect(Seq::empty(), seq![UiView::Log(error_line(code, message@))]))
            },
            _ => (m, nothing()),
        }
    } else {
        match e {
            ShellEvent::AuthorizationState { state, is_encrypted } => auth_spec(m, state@, is_encrypted),
            ShellEvent::Error { code, message, extra } => error_spec_of(m, code, message@, extra@),
            ShellEvent::Accepted { extra } => ok_spec(m, extra@),
            ShellEvent::Chats { extra, chat_ids } => chats_reply_spec(m, extra@, chat_ids@),
            ShellEvent::Chat { extra, chat } => chat_event_spec(m, extra@, chat),
            ShellEvent::ChatTitle { chat_id, title } => title_spec(m, chat_id, title),
            ShellEvent::ChatPosition { chat_id, position } => position_event_spec(m, chat_id, position),
            ShellEvent::ReadInbox { chat_id, unread_count } => read_inbox_spec(m, chat_id, unread_count),
            ShellEvent::ReadOutbox { chat_id, message_id } => read_outbox_spec(m, chat_id, message_id),
            ShellEvent::MarkedUnread { chat_id, marked } => marked_spec(m, chat_id, marked),
            ShellEvent::LastMessage { chat_id, last_message, positions } =>
                last_message_event_spec(m, chat_id, last_message, positions@),
            ShellEvent::ChatPhoto { chat_id, photo_null, small } => chat_photo_spec(m, chat_id, photo_null, small),
            ShellEvent::File(f) => file_spec(m, f),
            ShellEvent::Folders(v) => folders_spec(m, folders_view(v@)),
            ShellEvent::User { extra, user } => user_spec(m, extra@, user),
            ShellEvent::Users { extra, user_ids } => users_spec(m, extra@, user_ids@),
            ShellEvent::Messages { extra, messages } => match messages {
                Some(v) => messages_spec(m, extra@, v@),
                None => (m, nothing()),
            },
            ShellEvent::Message(msg) => message_event_spec(m, msg),
            ShellEvent::MessageContent { chat_id, message_id, content } =>
                message_content_spec(m, chat_id, message_id, content),
            ShellEvent::Other => (m, nothing()),
        }
    }
}

/// What the session does with a UI command. A finished session does
/// nothing.
pub open spec fn command_spec(m: ShellModel, c: ShellCommand) -> (ShellModel, ShellEffectView) {
    if m.finished {
        (m, nothing())
    } else {
        match c {
            ShellCommand::Close => begin_close_spec(m, Seq::empty()),
            ShellCommand::SelectChat(id) => select_spec(m, id),
            ShellCommand::LoadOlder { chat_id } => load_older_spec(m, chat_id),
            ShellCommand::SendText { chat_id, text } => send_text_spec(m, chat_id, text@),
            ShellCommand::SelectFolder(f) => select_folder_spec(m, f),
            ShellCommand::Search(q) => search_command_spec(m, q@),
            ShellCommand::LoadContacts => load_contacts_spec(m),
            ShellCommand::OpenContact(u) => open_contact_spec(m, u),
        }
    }
}

fn text(s: &str) -> (r: String)
    ensures
        r@ == s@,
{
    s.to_owned()
}

fn labelled(prefix: &str, n: i64) -> (r: String)
    ensures
        r@ == prefix@ + int_text(n as int),
{
    let mut s = prefix.to_owned();
    push_int(&mut s, n);
    s
}

fn labelled_text(prefix: &str, s: &str) -> (r: String)
    ensures
        r@ == prefix@ + s@,
{
    let mut r = prefix.to_owned();
    r.append(s);
    r
}

fn same_opt(a: &Option<String>, b: &Option<String>) -> (r: bool)
    ensures
        r == (crate::shell::opt_text(*a) == crate::shell::opt_text(*b)),
{
    match (a, b) {
        (Some(x), Some(y)) => str_eq(x.as_str(), y.as_str()),
        (None, None) => true,
        _ => false,
    }
}

fn starts_with(s: &str, p: &str) -> (r: bool)
    ensures
        r == starts_with_seq(s@, p@),
{
    let sc = chars_of(s);
    let pc = chars_of(p);
    matches_at(sc.as_slice(), pc.as_slice(), 0)
}

fn skip_chars(s: &str, n: usize) -> (r: Vec<char>)
    ensures
        r@ == s@.skip(n as int) || (n > s@.len() && r@.len() == 0),
        n <= s@.len() ==> r@ == s@.skip(n as int),
{
    let chars = chars_of(s);
    let mut rest: Vec<char> = Vec::new();
    if n > chars.len() {
        return rest;
    }
    assert(rest@ =~= chars@.subrange(n as int, n as int));
    let mut k: usize = n;
    while k < chars.len()
        invariant
            n <= k <= chars.len(),
            rest@ == chars@.subrange(n as int, k as int),
        decreases chars.len() - k,
    {
        rest.push(chars[k]);
        k += 1;
    }
    assert(rest@ =~= s@.skip(n as int));
    rest
}

fn chat_requests(ids: &Vec<i64>, search: bool) -> (r: Vec<Request>)
    ensures
        requests_view(r@) == ids@.map_values(
            |id: i64| if search { get_chat_search_view(id) } else { get_chat_view(id) },
        ),
{
    let ghost want = ids@.map_values(|id: i64| if search { get_chat_search_view(id) } else { get_chat_view(id) });
    let mut r: Vec<Request> = Vec::new();
    let mut k: usize = 0;
    while k < ids.len()
        invariant
            k <= ids.len(),
            want == ids@.map_values(|id: i64| if search { get_chat_search_view(id) } else { get_chat_view(id) }),
            requests_view(r@) == want.take(k as int),
        decreases ids.len() - k,
    {
        let id = ids[k];
        let req = Request::GetChat { chat_id: id, extra: labelled(if search { "getChat:search:" } else { "getChat:" }, id) };
        let ghost before = r@;
        r.push(req);
        assert(requests_view(r@) =~= requests_view(before).push(want[k as int]));
        assert(want.take(k + 1) =~= want.take(k as int).push(want[k as int]));
        k += 1;
    }
    assert(want.take(want.len() as int) =~= want);
    r
}

/// Watching a message's photos reads only its files.
proof fn lemma_watch_photos_files_only(m: ShellModel, a: VisibleContent, b: VisibleContent, chat_id: i64, id: i64)
    requires
        a.preview_file == b.preview_file,
        a.full_file == b.full_file,
    ensures
        watch_photos_spec(m, a, chat_id, id) == watch_photos_spec(m, b, chat_id, id),
{
}

fn history_id(extra: &str) -> (r: Option<i64>)
    ensures
        r == history_extra_id(extra@),
{
    if !starts_with(extra, "history:") {
        return None;
    }
    proof {
        reveal_strlit("history:");
    }
    let rest = skip_chars(extra, 8);
    parse_i64(rest.as_slice())
}

fn chat_message_ids(inserted: &Vec<(i64, i64)>, chat_id: i64) -> (r: Vec<i64>)
    ensures
        r@ == ids_in_chat(inserted@, chat_id),
{
    let mut r: Vec<i64> = Vec::new();
    let mut k: usize = 0;
    proof {
        crate::seqs::lemma_filter_empty(inserted@, in_chat(chat_id));
        assert(inserted@.take(0).filter(in_chat(chat_id)).map_values(message_part()) =~= Seq::<i64>::empty());
    }
    while k < inserted.len()
        invariant
            k <= inserted.len(),
            r@ == inserted@.take(k as int).filter(in_chat(chat_id)).map_values(message_part()),
        decreases inserted.len() - k,
    {
        proof {
            crate::seqs::lemma_filter_take_step(inserted@, k as int, in_chat(chat_id));
        }
        let ghost before = inserted@.take(k as int).filter(in_chat(chat_id));
        if inserted[k].0 == chat_id {
            r.push(inserted[k].1);
            assert(before.push(inserted@[k as int]).map_values(message_part()) =~= before.map_values(
                message_part(),
            ).push(inserted@[k as int].1));
        }
        k += 1;
    }
    assert(inserted@.take(inserted.len() as int) =~= inserted@);
    r
}

impl ShellEffect {
    pub fn none() -> (e: Self)
        ensures
            e@ == nothing(),
    {
        let e = ShellEffect { send: Vec::new(), ui: Vec::new() };
        assert(e@.send =~= Seq::<RequestView>::empty());
        assert(e@.ui =~= Seq::<UiView>::empty());
        e
    }

    fn push_ui(&mut self, u: UiUpdate)
        ensures
            final(self)@ == effect(old(self)@.send, old(self)@.ui.push(u@)),
    {
        let ghost before = self@;
        self.ui.push(u);
        assert(ui_view(self.ui@) =~= before.ui.push(u@));
    }

    fn push_send(&mut self, r: Request)
        ensures
            final(self)@ == effect(old(self)@.send.push(r@), old(self)@.ui),
    {
        let ghost before = self@;
        self.send.push(r);
        assert(requests_view(self.send@) =~= before.send.push(r@));
    }
}

impl Shell {
    /// Every part of the session is well formed.
    pub closed spec fn wf(&self) -> bool {
        &&& self.table.wf()
        &&& self.book.wf()
        &&& self.messages.wf()
        &&& self.cursors.wf()
        &&& self.files.wf()
        &&& self.history.wf()
        &&& self.search.wf()
    }

    pub fn new(cfg: SessionConfig) -> (s: Self)
        ensures
            s.wf(),
            s@.cfg == cfg,
            !s@.ready && !s@.closing && !s@.finished && !s@.failed,
            !s@.sent_parameters && !s@.sent_encryption_check && !s@.did_load,
            s@.get_chats_sent == 0,
            s@.my_user_id is None,
            s@.active_folder is None,
    {
        Shell {
            cfg,
            ready: false,
            closing: false,
            finished: false,
            failed: false,
            sent_parameters: false,
            sent_encryption_check: false,
            did_load: false,
            get_chats_sent: 0,
            my_user_id: None,
            table: ChatTable::new(),
            book: ContactBook::new(),
            messages: MessageStore::new(),
            cursors: ReadCursors::new(),
            files: FileWatch::new(),
            history: HistoryTracker::new(),
            search: SearchState::new(),
            folders: Vec::new(),
            active_folder: None,
            folder_fetches: Vec::new(),
        }
    }

    /// Whether the session has ended.
    pub fn finished(&self) -> (r: bool)
        ensures
            r == self@.finished,
    {
        self.finished
    }

    /// Whether the session is closing.
    pub fn closing(&self) -> (r: bool)
        ensures
            r == self@.closing,
    {
        self.closing
    }

    /// Whether the session failed.
    pub fn failed(&self) -> (r: bool)
        ensures
            r == self@.failed,
    {
        self.failed
    }

    fn chat_list_update(&self) -> (u: UiUpdate)
        ensures
            u@ == chat_list_ui(self@),
    {
        UiUpdate::ChatList(self.table.chat_list(self.active_folder, self.cfg.chat_limit))
    }

    fn conversation_update(&self, chat_id: i64) -> (u: UiUpdate)
        ensures
            u@ == conversation_ui(self@, chat_id),
    {
        let title = crate::shell::conversation_title(chat_id, self.table.chats());
        let messages = crate::shell::conversation_messages(
            chat_id,
            self.messages.bucket(chat_id),
            self.cursors.cursor(chat_id),
            self.my_user_id,
            self.book.users(),
            self.table.chats(),
        );
        UiUpdate::Conversation { chat_id, title, messages }
    }

    fn search_update(&self) -> (u: UiUpdate)
        ensures
            u@ == search_ui(self@),
    {
        UiUpdate::SearchResults { query: text(self.search.query()), chats: self.search.results(self.table.chats()) }
    }

    fn contacts_update(&self) -> (u: UiUpdate)
        ensures
            u@ == contacts_ui(self@),
    {
        UiUpdate::Contacts(self.book.contacts())
    }

    fn begin_close(&mut self, ui: Vec<UiUpdate>) -> (e: ShellEffect)
        ensures
            (final(self)@, e@) == begin_close_spec(old(self)@, ui_view(ui@)),
    {
        if self.closing || self.finished {
            return ShellEffect { send: Vec::new(), ui };
        }
        self.closing = true;
        let mut e = ShellEffect { send: Vec::new(), ui };
        assert(e@.send =~= Seq::<RequestView>::empty());
        e.push_ui(UiUpdate::Log(text("closing")));
        e.push_send(Request::Close { extra: text("close") });
        e
    }

    fn fail(&mut self, message: String) -> (e: ShellEffect)
        ensures
            (final(self)@, e@) == fail_spec(old(self)@, message@),
    {
        self.failed = true;
        let closed = self.begin_close(Vec::new());
        let mut e = ShellEffect { send: closed.send, ui: Vec::new() };
        assert(e@.ui =~= Seq::<UiView>::empty());
        e.push_ui(UiUpdate::Fatal(message.clone()));
        e.push_ui(UiUpdate::Status(message));
        e
    }

    fn request_chats(&mut self) -> (e: ShellEffect)
        ensures
            (final(self)@, e@) == request_chats_spec(old(self)@),
    {
        if self.get_chats_sent >= 3 {
            let mut e = ShellEffect::none();
            e.push_ui(self.chat_list_update());
            return e;
        }
        self.get_chats_sent = self.get_chats_sent + 1;
        let mut e = ShellEffect::none();
        e.push_send(Request::GetChats { chat_list: ChatList::Main, limit: self.cfg.chat_limit, extra: text("getChats") });
        e
    }

    /// `updateAuthorizationState` with the state's `@type` (`unknown` when
    /// missing) and its `is_encrypted` flag.
    #[verifier::spinoff_prover]
    #[verifier::rlimit(40)]
    pub fn on_auth(&mut self, state: &str, encrypted: bool) -> (e: ShellEffect)
        requires
            old(self).wf(),
        ensures
            final(self).wf(),
            (final(self)@, e@) == auth_spec(old(self)@, state@, encrypted),
    {
        let mut e = ShellEffect::none();
        e.push_ui(UiUpdate::Log(labelled_text("auth: ", state)));
        e.push_ui(UiUpdate::Status(status_for(state)));
        let ghost u0 = e@.ui;
        if str_eq(state, "authorizationStateWaitTdlibParameters") && !self.sent_parameters && !self.closing {
            self.sent_parameters = true;
            e.push_ui(UiUpdate::Log(text(SENDING_PARAMETERS)));
            e.push_send(set_tdlib_parameters(&self.cfg));
            return e;
        }
        if str_eq(state, "authorizationStateWaitEncryptionKey") && !self.closing {
            let mut legacy = text("auth: legacy authorizationStateWaitEncryptionKey (is_encrypted=");
            legacy.append(if encrypted { "true" } else { "false" });
            legacy.append("); sending an empty checkDatabaseEncryptionKey");
            e.push_ui(UiUpdate::Log(legacy));
            if self.sent_encryption_check {
                return e;
            }
            self.sent_encryption_check = true;
            e.push_send(Request::CheckDatabaseEncryptionKey {
                encryption_key: text(""),
                extra: text("checkDatabaseEncryptionKey"),
            });
            return e;
        }
        if str_eq(state, "authorizationStateReady") && !self.ready && !self.closing {
            self.ready = true;
            let tail = self.request_chats();
            let mut head = ShellEffect::none();
            head.push_send(Request::GetMe { extra: text("getMe") });
            head.push_send(Request::LoadChats { chat_list: ChatList::Main, limit: self.cfg.chat_limit, extra: text("loadChats") });
            e.push_ui(UiUpdate::Log(text("Ready")));
            e.push_ui(UiUpdate::Ready);
            e.push_ui(UiUpdate::Status(text("Ready")));
            let ghost hs = head@.send;
            let ghost eu = e@.ui;
            let ghost tv = tail@;
            let ShellEffect { send: mut send, ui: mut ui } = head;
            let ShellEffect { send: mut tsend, ui: mut tui } = tail;
            send.append(&mut tsend);
            let mut ui2 = e.ui;
            ui2.append(&mut tui);
            let r = ShellEffect { send, ui: ui2 };
            assert(r@.send =~= hs + tv.send);
            assert(r@.ui =~= eu + tv.ui);
            assert(eu =~= u0 + seq![UiView::Log("Ready"@), UiView::Ready, UiView::Status("Ready"@)]);
            return r;
        }
        let incomplete = str_eq(state, "authorizationStateWaitPhoneNumber") || str_eq(
            state,
            "authorizationStateWaitCode",
        ) || str_eq(state, "authorizationStateWaitPassword") || str_eq(state, "authorizationStateWaitRegistration")
            || str_eq(state, "authorizationStateWaitEmailAddress") || str_eq(state, "authorizationStateWaitEmailCode")
            || str_eq(state, "authorizationStateWaitOtherDeviceConfirmation") || str_eq(
            state,
            "authorizationStateWaitPremiumPurchase",
        );
        if incomplete {
            let mut r = ShellEffect::none();
            r.push_ui(UiUpdate::Log(labelled_text("auth: ", state)));
            r.push_ui(UiUpdate::Status(text(NOT_LOGGED_IN)));
            return r;
        }
        if str_eq(state, "authorizationStateLoggingOut") {
            return self.fail(text(LOGGING_OUT));
        }
        if str_eq(state, "authorizationStateClosed") {
            self.finished = true;
            e.push_ui(UiUpdate::Log(text("closed")));
        }
        e
    }

    /// `ok`, with its `@extra`.
    pub fn on_ok(&mut self, extra: &str) -> (e: ShellEffect)
        requires
            old(self).wf(),
        ensures
            final(self).wf(),
            (final(self)@, e@) == ok_spec(old(self)@, extra@),
    {
        let mut e = ShellEffect::none();
        if str_eq(extra, "setTdlibParameters") {
            e.push_ui(UiUpdate::Log(text("setTdlibParameters accepted")));
            return e;
        }
        if str_eq(extra, "checkDatabaseEncryptionKey") {
            e.push_ui(UiUpdate::Log(text("checkDatabaseEncryptionKey accepted")));
            return e;
        }
        if str_eq(extra, "loadChats") && self.ready {
            return self.request_chats();
        }
        e
    }

    /// `error`, with its `code`, `message` and `@extra`.
    pub fn on_error(&mut self, code: i64, message: &str, extra: &str) -> (e: ShellEffect)
        requires
            old(self).wf(),
        ensures
            final(self).wf(),
            (final(self)@, e@) == error_spec_of(old(self)@, code, message@, extra@),
    {
        let mut rendered = text("TDLib error ");
        push_int(&mut rendered, code);
        rendered.append(": ");
        rendered.append(message);
        let hint = explain_error(code, message, extra);
        if let Some(h) = hint {
            rendered.append("\nhint: ");
            rendered.append(h);
        }
        assert(rendered@ == rendered_error(code, message@, extra@));
        if str_eq(extra, "loadChats") && code == 404 {
            let tail = self.request_chats();
            let ghost tv = tail@;
            let mut ui: Vec<UiUpdate> = Vec::new();
            ui.push(UiUpdate::Log(text(NO_FURTHER_PAGES)));
            let ShellEffect { send, ui: mut tui } = tail;
            ui.append(&mut tui);
            let r = ShellEffect { send, ui };
            assert(r@.ui =~= seq![UiView::Log(NO_FURTHER_PAGES@)] + tv.ui);
            return r;
        }
        if starts_with(extra, "history:") {
            let chars = chars_of(extra);
            let mut rest: Vec<char> = Vec::new();
            proof {
                reveal_strlit("history:");
            }
            assert(rest@ =~= chars@.subrange(8, 8));
            let mut k: usize = 8;
            while k < chars.len()
                invariant
                    8 <= k <= chars.len(),
                    rest@ == chars@.subrange(8, k as int),
                decreases chars.len() - k,
            {
                rest.push(chars[k]);
                k += 1;
            }
            assert(rest@ =~= extra@.skip(8));
            if let Some(chat_id) = parse_i64(rest.as_slice()) {
                self.history.cancel(chat_id);
            }
        }
        let mut e = ShellEffect::none();
        if let Some(g) = search_generation(extra) {
            let current = self.search.on_error(g);
            e.push_ui(UiUpdate::Log(rendered));
            if current {
                let mut status = text("Search error ");
                push_int(&mut status, code);
                status.append(": ");
                status.append(message);
                e.push_ui(UiUpdate::Status(status));
            } else {
                assert(e@.ui =~= seq![UiView::Log(rendered_error(code, message@, extra@))] + Seq::<UiView>::empty());
            }
            return e;
        }
        if str_eq(extra, "getContacts") {
            let mut status = text("Contacts error ");
            push_int(&mut status, code);
            status.append(": ");
            status.append(message);
            e.push_ui(UiUpdate::Log(rendered));
            e.push_ui(UiUpdate::Status(status));
            return e;
        }
        if starts_with(extra, "createPrivateChat:") {
            e.push_ui(UiUpdate::Log(rendered));
            e.push_ui(UiUpdate::Status(labelled_text("Could not open contact: ", message)));
            return e;
        }
        let quiet = starts_with(extra, "getChat:") || starts_with(extra, "history:") || starts_with(extra, "getUser:")
            || starts_with(extra, "download:") || starts_with(extra, "loadChats:folder:") || starts_with(
            extra,
            "getChats:folder:",
        ) || starts_with(extra, "view:") || starts_with(extra, "openChat:") || starts_with(extra, "closeChat:")
            || starts_with(extra, "marked:");
        if quiet {
            e.push_ui(UiUpdate::Log(rendered));
            return e;
        }
        if str_eq(extra, "setTdlibParameters") || str_eq(extra, "checkDatabaseEncryptionKey") || hint.is_some()
            || code == 401 {
            return self.fail(rendered);
        }
        e.push_ui(UiUpdate::Log(rendered));
        e
    }

    /// `chats`, with its `@extra` and the integer entries of `chat_ids`.
    pub fn on_chats(&mut self, extra: &str, ids: &[i64]) -> (e: ShellEffect)
        requires
            old(self).wf(),
        ensures
            final(self).wf(),
            (final(self)@, e@) == chats_reply_spec(old(self)@, extra@, ids@),
    {
        let limit = self.cfg.chat_limit;
        if starts_with(extra, "getChats:folder:") {
            proof {
                reveal_strlit("getChats:folder:");
            }
            let rest = skip_chars(extra, 16);
            let folder = match parse_i64(rest.as_slice()) {
                Some(v) => if i32::MIN as i64 <= v && v <= i32::MAX as i64 { Some(v as i32) } else { None },
                None => None,
            };
            match folder {
                Some(f) => {
                    let missing = self.table.on_folder_chats(f, ids, limit);
                    let send = chat_requests(&missing, false);
                    let mut e = ShellEffect { send, ui: Vec::new() };
                    assert(e@.ui =~= Seq::<UiView>::empty());
                    e.push_ui(self.chat_list_update());
                    return e;
                },
                None => return ShellEffect::none(),
            }
        }
        if let Some(g) = search_generation(extra) {
            match self.search.on_chats(g, ids, self.table.chats()) {
                None => return ShellEffect::none(),
                Some((missing, done)) => {
                    let send = chat_requests(&missing, true);
                    let mut e = ShellEffect { send, ui: Vec::new() };
                    assert(e@.ui =~= Seq::<UiView>::empty());
                    e.push_ui(self.search_update());
                    if done {
                        let n = self.search.results(self.table.chats()).len();
                        e.push_ui(UiUpdate::Status(search_status(n)));
                    } else {
                        assert(e@.ui =~= e@.ui + Seq::<UiView>::empty());
                    }
                    return e;
                },
            }
        }
        let missing = self.table.on_chats(ids, limit);
        if self.table.listed().len() == 0 && !self.did_load {
            self.did_load = true;
            let mut e = ShellEffect::none();
            e.push_send(Request::LoadChats { chat_list: ChatList::Main, limit, extra: text("loadChats") });
            return e;
        }
        let send = chat_requests(&missing, false);
        let mut e = ShellEffect { send, ui: Vec::new() };
        assert(e@.ui =~= Seq::<UiView>::empty());
        e.push_ui(self.chat_list_update());
        e
    }

    fn refresh_list(&self) -> (e: ShellEffect)
        ensures
            e@ == effect(Seq::empty(), seq![chat_list_ui(self@)]),
    {
        let mut e = ShellEffect::none();
        e.push_ui(self.chat_list_update());
        e
    }

    fn push_conversation_if_open(&self, e: &mut ShellEffect, chat_id: i64)
        ensures
            final(e)@ == effect(old(e)@.send, old(e)@.ui + conversation_if_open(self@, chat_id)),
    {
        if self.history.open_chat() == Some(chat_id) {
            e.push_ui(self.conversation_update(chat_id));
        } else {
            assert(old(e)@.ui + Seq::<UiView>::empty() =~= old(e)@.ui);
        }
    }

    /// `updateChatTitle`, with `chat_id` and `title` when they are there.
    pub fn on_title(&mut self, chat_id: Option<i64>, title: Option<String>) -> (e: ShellEffect)
        requires
            old(self).wf(),
        ensures
            final(self).wf(),
            (final(self)@, e@) == title_spec(old(self)@, chat_id, title),
    {
        match (chat_id, title) {
            (Some(i), Some(t)) => {
                self.table.set_title(i, t.as_str());
                let mut e = self.refresh_list();
                self.push_conversation_if_open(&mut e, i);
                e
            },
            _ => ShellEffect::none(),
        }
    }

    /// `updateChatPosition`, with `chat_id` when it is there.
    pub fn on_position(&mut self, chat_id: Option<i64>, position: ChatPosition) -> (e: ShellEffect)
        requires
            old(self).wf(),
        ensures
            final(self).wf(),
            (final(self)@, e@) == position_event_spec(old(self)@, chat_id, position),
    {
        match chat_id {
            Some(i) => {
                if self.table.on_position(i, position) {
                    self.refresh_list()
                } else {
                    ShellEffect::none()
                }
            },
            None => ShellEffect::none(),
        }
    }

    /// `updateChatReadInbox`, with `chat_id` when it is there and the
    /// `unread_count` read as a number (missing when it is not one).
    pub fn on_read_inbox(&mut self, chat_id: Option<i64>, count: Option<i64>) -> (e: ShellEffect)
        requires
            old(self).wf(),
        ensures
            final(self).wf(),
            (final(self)@, e@) == read_inbox_spec(old(self)@, chat_id, count),
    {
        match chat_id {
            Some(i) => {
                if self.table.set_unread(i, count) {
                    self.refresh_list()
                } else {
                    ShellEffect::none()
                }
            },
            None => ShellEffect::none(),
        }
    }

    /// `updateChatIsMarkedAsUnread`, with `chat_id` when it is there and the
    /// flag (false when it is not a bool).
    pub fn on_marked_unread(&mut self, chat_id: Option<i64>, marked: bool) -> (e: ShellEffect)
        requires
            old(self).wf(),
        ensures
            final(self).wf(),
            (final(self)@, e@) == marked_spec(old(self)@, chat_id, marked),
    {
        match chat_id {
            Some(i) => {
                if self.table.set_marked_unread(i, marked) {
                    self.refresh_list()
                } else {
                    ShellEffect::none()
                }
            },
            None => ShellEffect::none(),
        }
    }

    /// `updateChatReadOutbox`, with `chat_id` and
    /// `last_read_outbox_message_id` when they are there.
    pub fn on_read_outbox(&mut self, chat_id: Option<i64>, message_id: Option<i64>) -> (e: ShellEffect)
        requires
            old(self).wf(),
        ensures
            final(self).wf(),
            (final(self)@, e@) == read_outbox_spec(old(self)@, chat_id, message_id),
    {
        match (chat_id, message_id) {
            (Some(i), Some(mid)) => {
                if self.cursors.note(i, mid) {
                    let mut e = ShellEffect::none();
                    self.push_conversation_if_open(&mut e, i);
                    assert(Seq::<UiView>::empty() + conversation_if_open(self@, i) =~= conversation_if_open(self@, i));
                    e
                } else {
                    ShellEffect::none()
                }
            },
            _ => ShellEffect::none(),
        }
    }

    /// `updateChatLastMessage`, with `chat_id` when it is there.
    pub fn on_last_message(&mut self, chat_id: Option<i64>, last: &LastMessage, positions: &[ChatPosition]) -> (e: ShellEffect)
        requires
            old(self).wf(),
        ensures
            final(self).wf(),
            (final(self)@, e@) == last_message_event_spec(old(self)@, chat_id, *last, positions@),
    {
        match chat_id {
            Some(i) => {
                self.table.on_last_message(i, last, positions);
                self.refresh_list()
            },
            None => ShellEffect::none(),
        }
    }

    /// Watches a file for `role`; returns the download to ask for, if any.
    fn watch_file(&mut self, f: &FileRef, role: FileRole) -> (send: Vec<Request>)
        requires
            old(self).wf(),
        ensures
            final(self).wf(),
            (final(self)@, requests_view(send@)) == watch_file_spec(old(self)@, *f, role),
    {
        let mut send: Vec<Request> = Vec::new();
        assert(requests_view(send@) =~= Seq::<RequestView>::empty());
        match f.id {
            None => send,
            Some(id) => {
                let completed = match &f.completed {
                    Some(p) => Some(p.clone()),
                    None => None,
                };
                match self.files.watch(id, role, completed, f.can_download) {
                    WatchStep::Apply(path) => {
                        apply_downloaded(&self.files, &mut self.table, &mut self.book, &mut self.messages, id, path.as_str());
                        send
                    },
                    WatchStep::Request => {
                        send.push(Request::DownloadFile { file_id: id, priority: 16, extra: labelled("download:", id as i64) });
                        assert(requests_view(send@) =~= seq![download_view(id)]);
                        send
                    },
                    WatchStep::Nothing => send,
                }
            },
        }
    }

    /// `updateChatPhoto`, with `chat_id` when it is there, whether `photo`
    /// is null, and the photo's small file.
    pub fn on_chat_photo(&mut self, chat_id: Option<i64>, photo_null: bool, small: Option<&FileRef>) -> (e: ShellEffect)
        requires
            old(self).wf(),
        ensures
            final(self).wf(),
            (final(self)@, e@) == chat_photo_spec(old(self)@, chat_id, photo_null, match small {
                Some(f) => Some(*f),
                None => None,
            }),
    {
        match chat_id {
            Some(i) => {
                if !self.table.clear_avatar(i) {
                    return ShellEffect::none();
                }
                if photo_null {
                    return self.refresh_list();
                }
                let send = match small {
                    Some(f) => self.watch_file(f, FileRole::Avatar(i)),
                    None => {
                        let v: Vec<Request> = Vec::new();
                        assert(requests_view(v@) =~= Seq::<RequestView>::empty());
                        v
                    },
                };
                let mut e = ShellEffect { send, ui: Vec::new() };
                assert(e@.ui =~= Seq::<UiView>::empty());
                e.push_ui(self.chat_list_update());
                e
            },
            None => ShellEffect::none(),
        }
    }

    /// `file` / `updateFile`.
    pub fn on_file(&mut self, f: &FileRef) -> (e: ShellEffect)
        requires
            old(self).wf(),
        ensures
            final(self).wf(),
            (final(self)@, e@) == file_spec(old(self)@, *f),
    {
        match (&f.completed, f.id) {
            (Some(path), Some(id)) => {
                let role = self.files.role(id);
                if !apply_downloaded(&self.files, &mut self.table, &mut self.book, &mut self.messages, id, path.as_str()) {
                    return ShellEffect::none();
                }
                match role {
                    Some(FileRole::Avatar(_)) => self.refresh_list(),
                    Some(FileRole::ContactAvatar(_)) => {
                        let mut e = ShellEffect::none();
                        e.push_ui(self.contacts_update());
                        e
                    },
                    Some(FileRole::MessagePhoto(chat_id, _, _)) => {
                        let mut e = ShellEffect::none();
                        self.push_conversation_if_open(&mut e, chat_id);
                        assert(Seq::<UiView>::empty() + conversation_if_open(self@, chat_id) =~= conversation_if_open(self@, chat_id));
                        e
                    },
                    None => ShellEffect::none(),
                }
            },
            _ => ShellEffect::none(),
        }
    }

    /// `chatFolders` / `updateChatFolders`.
    pub fn on_folders(&mut self, folders: Vec<FolderItem>) -> (e: ShellEffect)
        requires
            old(self).wf(),
        ensures
            final(self).wf(),
            (final(self)@, e@) == folders_spec(old(self)@, folders_view(folders@)),
    {
        let ghost fv = folders_view(folders@);
        if let Some(active) = self.active_folder {
            let mut found = false;
            let mut k: usize = 0;
            while k < folders.len()
                invariant
                    k <= folders.len(),
                    fv == folders_view(folders@),
                    found == exists|j: int| 0 <= j < k && (#[trigger] fv[j]).0 == active,
                decreases folders.len() - k,
            {
                if folders[k].id == active {
                    found = true;
                }
                assert(fv[k as int].0 == folders[k as int].id);
                k += 1;
            }
            if !found {
                self.active_folder = None;
            }
        }
        let mut copy: Vec<FolderItem> = Vec::new();
        let mut k: usize = 0;
        while k < folders.len()
            invariant
                k <= folders.len(),
                fv == folders_view(folders@),
                folders_view(copy@) == fv.take(k as int),
            decreases folders.len() - k,
        {
            let ghost before = copy@;
            copy.push(FolderItem { id: folders[k].id, title: folders[k].title.clone() });
            assert(folders_view(copy@) =~= folders_view(before).push(fv[k as int]));
            assert(fv.take(k + 1) =~= fv.take(k as int).push(fv[k as int]));
            k += 1;
        }
        assert(fv.take(fv.len() as int) =~= fv);
        self.folders = folders;
        let mut e = ShellEffect::none();
        e.push_ui(UiUpdate::Folders(copy));
        e.push_ui(self.chat_list_update());
        e
    }

    /// Opens a chat (`ShellCommand::SelectChat`).
    pub fn select_chat(&mut self, chat_id: i64) -> (e: ShellEffect)
        requires
            old(self).wf(),
        ensures
            final(self).wf(),
            (final(self)@, e@) == select_spec(old(self)@, chat_id),
    {
        if !self.ready || self.failed {
            return ShellEffect::none();
        }
        let marked = match self.table.chat(chat_id) {
            Some(c) => c.marked_unread,
            None => false,
        };
        let close = self.history.open(chat_id);
        let mut e = ShellEffect::none();
        let ghost s0 = e@.send;
        match close {
            Some(p) => e.push_send(Request::CloseChat { chat_id: p, extra: labelled("closeChat:", p) }),
            None => {},
        }
        let ghost s1 = e@.send;
        assert(s1 =~= s0 + match close {
            Some(p) => seq![close_chat_view(p)],
            None => Seq::<RequestView>::empty(),
        });
        e.push_send(Request::OpenChat { chat_id, extra: labelled("openChat:", chat_id) });
        let ghost s2 = e@.send;
        if marked {
            e.push_send(Request::ToggleChatIsMarkedAsUnread {
                chat_id,
                is_marked_as_unread: false,
                extra: labelled("marked:", chat_id),
            });
        }
        assert(e@.send =~= s2 + (if marked { seq![unmark_view(chat_id)] } else { Seq::<RequestView>::empty() }));
        e.push_send(Request::GetChatHistory {
            chat_id,
            from_message_id: 0,
            limit: HISTORY_LIMIT,
            extra: labelled("history:", chat_id),
        });
        e.push_ui(self.conversation_update(chat_id));
        e
    }

    /// Asks for an older page of the open chat (`ShellCommand::LoadOlder`).
    pub fn load_older(&mut self, chat_id: i64) -> (e: ShellEffect)
        requires
            old(self).wf(),
        ensures
            final(self).wf(),
            (final(self)@, e@) == load_older_spec(old(self)@, chat_id),
    {
        if !self.ready || self.failed {
            return ShellEffect::none();
        }
        let ids = self.messages.message_ids(chat_id);
        let oldest = oldest_message_id(ids.as_slice());
        match self.history.load_older(chat_id, oldest) {
            Some(f) => {
                let mut e = ShellEffect::none();
                e.push_send(Request::GetChatHistory {
                    chat_id,
                    from_message_id: f,
                    limit: HISTORY_LIMIT,
                    extra: labelled("history:", chat_id),
                });
                e
            },
            None => ShellEffect::none(),
        }
    }

    /// Sends text to a chat (`ShellCommand::SendText`).
    pub fn send_text(&mut self, chat_id: i64, text_in: &str) -> (e: ShellEffect)
        requires
            old(self).wf(),
        ensures
            final(self).wf(),
            (final(self)@, e@) == send_text_spec(old(self)@, chat_id, text_in@),
    {
        let t = trim(text_in);
        if t.as_str().is_empty() || !self.ready || self.failed {
            return ShellEffect::none();
        }
        let mut e = ShellEffect::none();
        e.push_send(Request::SendMessage { chat_id, text: t, extra: labelled("send:", chat_id) });
        e
    }

    /// Chooses a folder, `None` the main list (`ShellCommand::SelectFolder`).
    pub fn select_folder(&mut self, folder: Option<i32>) -> (e: ShellEffect)
        requires
            old(self).wf(),
        ensures
            final(self).wf(),
            (final(self)@, e@) == select_folder_spec(old(self)@, folder),
    {
        if !self.ready || self.failed {
            return ShellEffect::none();
        }
        self.active_folder = folder;
        let mut e = ShellEffect::none();
        e.push_ui(self.chat_list_update());
        if let Some(f) = folder {
            let mut known = false;
            let mut k: usize = 0;
            while k < self.folder_fetches.len()
                invariant
                    k <= self.folder_fetches.len(),
                    known == exists|j: int| 0 <= j < k && self.folder_fetches@[j] == f,
                decreases self.folder_fetches.len() - k,
            {
                if self.folder_fetches[k] == f {
                    known = true;
                }
                k += 1;
            }
            if !known {
                self.folder_fetches.push(f);
                let limit = self.cfg.chat_limit;
                let mut extra = text("loadChats:folder:");
                push_int(&mut extra, f as i64);
                e.push_send(Request::LoadChats { chat_list: ChatList::Folder(f), limit, extra });
                let mut extra2 = text("getChats:folder:");
                push_int(&mut extra2, f as i64);
                e.push_send(Request::GetChats { chat_list: ChatList::Folder(f), limit, extra: extra2 });
            }
        }
        e
    }

    /// A search query (`ShellCommand::Search`).
    pub fn search(&mut self, query: &str) -> (e: ShellEffect)
        requires
            old(self).wf(),
        ensures
            final(self).wf(),
            (final(self)@, e@) == search_command_spec(old(self)@, query@),
    {
        let ready = self.ready && !self.failed;
        let start = self.search.start(query, ready, self.cfg.chat_limit);
        let mut e = ShellEffect::none();
        e.push_ui(self.search_update());
        match start {
            SearchStart::Cleared => {
                if ready {
                    e.push_ui(UiUpdate::Status(text("Ready")));
                } else {
                    assert(e@.ui =~= e@.ui + Seq::<UiView>::empty());
                }
            },
            SearchStart::NotReady => {
                e.push_ui(UiUpdate::Status(text(NOT_READY_SEARCH)));
            },
            SearchStart::Sent { generation, limit, public } => {
                let q = self.search.query();
                let mut x1 = text("searchChats:");
                push_decimal(&mut x1, generation);
                e.push_send(Request::SearchChats { query: text(q), limit, extra: x1 });
                let mut x2 = text("searchChatsOnServer:");
                push_decimal(&mut x2, generation);
                e.push_send(Request::SearchChatsOnServer { query: text(q), limit, extra: x2 });
                let ghost s2 = e@.send;
                if let Some(p) = public {
                    let mut x3 = text("searchPublicChats:");
                    push_decimal(&mut x3, generation);
                    e.push_send(Request::SearchPublicChats { query: p, extra: x3 });
                }
                assert(e@.send =~= search_requests(
                    self@.search.query,
                    search_limit(self@.cfg.chat_limit),
                    self@.search.generation,
                    public_search_query_spec(self@.search.query),
                ));
                e.push_ui(UiUpdate::Status(text("Searching…")));
            },
        }
        e
    }

    /// Asks for the contacts (`ShellCommand::LoadContacts`).
    pub fn load_contacts(&mut self) -> (e: ShellEffect)
        requires
            old(self).wf(),
        ensures
            final(self).wf(),
            (final(self)@, e@) == load_contacts_spec(old(self)@),
    {
        let mut e = ShellEffect::none();
        if !self.ready || self.failed {
            e.push_ui(UiUpdate::Status(text(NOT_READY_CONTACTS)));
            return e;
        }
        e.push_send(Request::GetContacts { extra: text("getContacts") });
        e
    }

    /// Opens a contact's private chat (`ShellCommand::OpenContact`).
    pub fn open_contact(&mut self, user_id: i64) -> (e: ShellEffect)
        requires
            old(self).wf(),
        ensures
            final(self).wf(),
            (final(self)@, e@) == open_contact_spec(old(self)@, user_id),
    {
        let mut e = ShellEffect::none();
        if !self.ready || self.failed || user_id == 0 {
            e.push_ui(UiUpdate::Status(text(NOT_READY_CONTACTS)));
            return e;
        }
        e.push_send(Request::CreatePrivateChat { user_id, extra: labelled("createPrivateChat:", user_id) });
        e.push_ui(UiUpdate::Status(text("Opening chat…")));
        e
    }

    /// Closes the session (`ShellCommand::Close`).
    pub fn close(&mut self) -> (e: ShellEffect)
        requires
            old(self).wf(),
        ensures
            final(self).wf(),
            (final(self)@, e@) == begin_close_spec(old(self)@, Seq::empty()),
    {
        let ui: Vec<UiUpdate> = Vec::new();
        assert(ui_view(ui@) =~= Seq::<UiView>::empty());
        self.begin_close(ui)
    }

    fn remember_object(&mut self, c: &ChatObject) -> (r: (bool, Vec<Request>))
        requires
            old(self).wf(),
        ensures
            final(self).wf(),
            (final(self)@, r.0, requests_view(r.1@)) == remember_object_spec(old(self)@, *c),
    {
        let id = c.info.id;
        let outbox_changed = match c.last_read_outbox {
            Some(mid) => self.cursors.note(id, mid),
            None => false,
        };
        self.table.remember_chat(&c.info, self.cfg.chat_limit);
        let downloads = match &c.small_photo {
            Some(f) => self.watch_file(f, FileRole::Avatar(id)),
            None => {
                let v: Vec<Request> = Vec::new();
                assert(requests_view(v@) =~= Seq::<RequestView>::empty());
                v
            },
        };
        (outbox_changed, downloads)
    }

    fn push_search_rows_if_hit(&self, e: &mut ShellEffect, id: i64)
        ensures
            final(e)@ == effect(old(e)@.send, old(e)@.ui + search_rows_if_hit(self@, id)),
    {
        let ghost u0 = e@.ui;
        if !self.search.query().is_empty() && crate::history::contains_ids(self.search.ids(), id) {
            e.push_ui(self.search_update());
            let ghost u1 = e@.ui;
            if self.search.pending() == 0 && !self.search.error() {
                let n = self.search.results(self.table.chats()).len();
                e.push_ui(UiUpdate::Status(search_status(n)));
            }
            assert(e@.ui =~= u0 + search_rows_if_hit(self@, id));
        } else {
            assert(e@.ui =~= u0 + search_rows_if_hit(self@, id));
        }
    }

    fn open_created(&mut self, id: i64, e: ShellEffect) -> (r: ShellEffect)
        requires
            old(self).wf(),
        ensures
            final(self).wf(),
            (final(self)@, r@) == open_created_spec(old(self)@, id, e@),
    {
        let opened = self.select_chat(id);
        let ghost ov = opened@;
        let ghost ev = e@;
        let ShellEffect { send: mut send, ui: mut ui0 } = e;
        let ShellEffect { send: mut osend, ui: mut oui } = opened;
        send.append(&mut osend);
        let mut ui: Vec<UiUpdate> = Vec::new();
        ui.push(UiUpdate::OpenChat(id));
        ui.append(&mut ui0);
        ui.append(&mut oui);
        let mut r = ShellEffect { send, ui };
        assert(r@.send =~= ev.send + ov.send);
        assert(r@.ui =~= seq![UiView::OpenChat(id)] + ev.ui + ov.ui);
        let ghost ru = r@.ui;
        if self.ready {
            r.push_ui(UiUpdate::Status(text("Ready")));
        } else {
            assert(r@.ui =~= ru + Seq::<UiView>::empty());
        }
        r
    }

    /// `chat` / `updateNewChat`, with the `@extra` and the chat object
    /// (`None` when it has no id).
    #[verifier::spinoff_prover]
    #[verifier::rlimit(60)]
    pub fn on_chat_event(&mut self, extra: &str, chat: Option<&ChatObject>) -> (e: ShellEffect)
        requires
            old(self).wf(),
        ensures
            final(self).wf(),
            (final(self)@, e@) == chat_event_spec(old(self)@, extra@, match chat {
                Some(c) => Some(*c),
                None => None,
            }),
    {
        let c = match chat {
            Some(c) => c,
            None => return self.refresh_list(),
        };
        let id = c.info.id;
        let was_listed = self.table.is_listed(id);
        let (outbox_changed, downloads) = self.remember_object(c);
        if starts_with(extra, "getChat:search:") {
            self.table.detach_unlisted_search_chat(id, was_listed);
        }
        let mut e = ShellEffect { send: downloads, ui: Vec::new() };
        assert(e@.ui =~= Seq::<UiView>::empty());
        e.push_ui(self.chat_list_update());
        self.push_search_rows_if_hit(&mut e, id);
        let ghost u2 = e@.ui;
        if outbox_changed && self.history.open_chat() == Some(id) {
            e.push_ui(self.conversation_update(id));
        }
        assert(e@.ui =~= u2 + if outbox_changed && self@.history.open_chat == Some(id) {
            seq![conversation_ui(self@, id)]
        } else {
            Seq::<UiView>::empty()
        });
        if starts_with(extra, "createPrivateChat:") {
            proof {
                reveal_strlit("createPrivateChat:");
            }
            let rest = skip_chars(extra, 18);
            if parse_i64(rest.as_slice()).is_some() {
                return self.open_created(id, e);
            }
        }
        e
    }

    fn take_user(&mut self, o: &UserObject) -> (r: (bool, Vec<Request>))
        requires
            old(self).wf(),
        ensures
            final(self).wf(),
            (final(self)@, r.0, requests_view(r.1@)) == user_update_spec(old(self)@, *o),
    {
        let id = o.info.id;
        let changed = self.book.note_contact(&o.info);
        let before = self.book.contact_avatar_of(id);
        let downloads = if self.book.is_contact(id) && !o.info.photo_null && o.small_photo.is_some() {
            match &o.small_photo {
                Some(f) => self.watch_file(f, FileRole::ContactAvatar(id)),
                None => Vec::new(),
            }
        } else {
            let v: Vec<Request> = Vec::new();
            assert(requests_view(v@) =~= Seq::<RequestView>::empty());
            v
        };
        let after = self.book.contact_avatar_of(id);
        (changed || !same_opt(&before, &after), downloads)
    }

    /// `user` / `updateUser`, with the `@extra` and the user object (`None`
    /// when it has no id).
    #[verifier::spinoff_prover]
    #[verifier::rlimit(40)]
    pub fn on_user(&mut self, extra: &str, user: Option<&UserObject>) -> (e: ShellEffect)
        requires
            old(self).wf(),
        ensures
            final(self).wf(),
            (final(self)@, e@) == user_spec(old(self)@, extra@, match user {
                Some(u) => Some(*u),
                None => None,
            }),
    {
        let o = match user {
            Some(o) => o,
            None => return ShellEffect::none(),
        };
        let id = o.info.id;
        if str_eq(extra, "getMe") {
            self.my_user_id = Some(id);
        }
        let (contacts_changed, downloads) = self.take_user(o);
        let mut e = ShellEffect { send: downloads, ui: Vec::new() };
        assert(e@.ui =~= Seq::<UiView>::empty());
        if contacts_changed {
            e.push_ui(self.contacts_update());
        }
        let ghost u1 = e@.ui;
        match self.history.open_chat() {
            Some(open) => {
                if self.book.user_name(id).is_some() {
                    e.push_ui(self.conversation_update(open));
                } else {
                    assert(e@.ui =~= u1 + Seq::<UiView>::empty());
                }
            },
            None => {
                assert(e@.ui =~= u1 + Seq::<UiView>::empty());
            },
        }
        e
    }

    /// `users`, with the `@extra` and the integer `user_ids`.
    pub fn on_users(&mut self, extra: &str, ids: &[i64]) -> (e: ShellEffect)
        requires
            old(self).wf(),
        ensures
            final(self).wf(),
            (final(self)@, e@) == users_spec(old(self)@, extra@, ids@),
    {
        if !str_eq(extra, "getContacts") {
            return ShellEffect::none();
        }
        let missing = self.book.on_users(ids);
        let ghost want = missing@.map_values(|id: i64| get_user_view(id));
        let mut send: Vec<Request> = Vec::new();
        let mut k: usize = 0;
        while k < missing.len()
            invariant
                k <= missing.len(),
                want == missing@.map_values(|id: i64| get_user_view(id)),
                requests_view(send@) == want.take(k as int),
            decreases missing.len() - k,
        {
            let id = missing[k];
            let ghost before = send@;
            send.push(Request::GetUser { user_id: id, extra: labelled("getUser:", id) });
            assert(requests_view(send@) =~= requests_view(before).push(want[k as int]));
            assert(want.take(k + 1) =~= want.take(k as int).push(want[k as int]));
            k += 1;
        }
        assert(want.take(want.len() as int) =~= want);
        let mut e = ShellEffect { send, ui: Vec::new() };
        assert(e@.ui =~= Seq::<UiView>::empty());
        e.push_ui(self.contacts_update());
        let mut status = String::new();
        push_decimal(&mut status, ids.len() as u64);
        status.append(" contacts");
        e.push_ui(UiUpdate::Status(status));
        e
    }

    fn watch_photos(&mut self, v: &VisibleContent, chat_id: i64, id: i64) -> (send: Vec<Request>)
        requires
            old(self).wf(),
        ensures
            final(self).wf(),
            (final(self)@, requests_view(send@)) == watch_photos_spec(old(self)@, *v, chat_id, id),
    {
        let p = match &v.preview_file {
            Some(f) => f.id,
            None => None,
        };
        let q = match &v.full_file {
            Some(f) => f.id,
            None => None,
        };
        if p.is_some() && p == q {
            match &v.preview_file {
                Some(f) => return self.watch_file(f, FileRole::MessagePhoto(chat_id, id, PhotoSlot::Both)),
                None => return Vec::new(),
            }
        }
        let mut d1 = match &v.preview_file {
            Some(f) => self.watch_file(f, FileRole::MessagePhoto(chat_id, id, PhotoSlot::Preview)),
            None => {
                let e: Vec<Request> = Vec::new();
                assert(requests_view(e@) =~= Seq::<RequestView>::empty());
                e
            },
        };
        let mut d2 = match &v.full_file {
            Some(f) => self.watch_file(f, FileRole::MessagePhoto(chat_id, id, PhotoSlot::Full)),
            None => {
                let e: Vec<Request> = Vec::new();
                assert(requests_view(e@) =~= Seq::<RequestView>::empty());
                e
            },
        };
        let ghost a = requests_view(d1@);
        let ghost b = requests_view(d2@);
        d1.append(&mut d2);
        assert(requests_view(d1@) =~= a + b);
        d1
    }

    fn remember_message(&mut self, msg: &IncomingMessage) -> (r: (Option<(i64, i64, bool, bool)>, Vec<Request>))
        requires
            old(self).wf(),
        ensures
            final(self).wf(),
            (final(self)@, r.0, requests_view(r.1@)) == remember_message_spec(old(self)@, *msg),
    {
        let none: Vec<Request> = Vec::new();
        assert(requests_view(none@) =~= Seq::<RequestView>::empty());
        if !msg.is_message {
            return (None, none);
        }
        match (msg.chat_id, msg.id, &msg.content) {
            (Some(c), Some(i), Some(v)) => {
                let content = v.content.copy();
                let stored = StoredMessage {
                    sender_id: msg.sender_user,
                    sender_chat: msg.sender_chat,
                    outgoing: msg.outgoing,
                    text: content.text,
                    date: msg.date,
                    kind: content.kind,
                    photo: content.photo,
                    photo_full: content.photo_full,
                    photo_full_width: content.photo_full_width,
                    photo_full_height: content.photo_full_height,
                    links: content.links,
                };
                assert(stored@ == stored_from(*msg, *v));
                let (inserted, changed) = self.messages.remember(c, i, stored);
                let downloads = self.watch_photos(v, c, i);
                (Some((c, i, changed, inserted)), downloads)
            },
            _ => (None, none),
        }
    }

    fn view_messages(&self, chat_id: i64) -> (send: Vec<Request>)
        ensures
            requests_view(send@) == view_request(self@, chat_id),
    {
        let mut send: Vec<Request> = Vec::new();
        assert(requests_view(send@) =~= Seq::<RequestView>::empty());
        if self.history.open_chat() != Some(chat_id) {
            return send;
        }
        let all = self.messages.message_ids(chat_id);
        let ids = open_message_ids(all.as_slice());
        if ids.len() == 0 {
            return send;
        }
        send.push(Request::ViewMessages { chat_id, message_ids: ids, extra: labelled("view:", chat_id) });
        assert(requests_view(send@) =~= view_request(self@, chat_id));
        send
    }

    /// `message` / `updateNewMessage`.
    #[verifier::spinoff_prover]
    #[verifier::rlimit(40)]
    pub fn on_message_event(&mut self, msg: &IncomingMessage) -> (e: ShellEffect)
        requires
            old(self).wf(),
        ensures
            final(self).wf(),
            (final(self)@, e@) == message_event_spec(old(self)@, *msg),
    {
        let (r, downloads) = self.remember_message(msg);
        match r {
            None => ShellEffect::none(),
            Some((c, _, changed, inserted)) => {
                let mut e = ShellEffect { send: downloads, ui: Vec::new() };
                assert(e@.ui =~= Seq::<UiView>::empty());
                if changed && self.history.open_chat() == Some(c) {
                    e.push_ui(self.conversation_update(c));
                }
                let ghost s0 = e@.send;
                if changed || inserted {
                    let mut views = self.view_messages(c);
                    e.send.append(&mut views);
                    assert(e@.send =~= s0 + view_request(self@, c));
                } else {
                    assert(e@.send =~= s0 + Seq::<RequestView>::empty());
                }
                e
            },
        }
    }

    /// `updateMessageContent`, with `chat_id` and `message_id` when they are
    /// there, and the new content when it can be shown.
    #[verifier::spinoff_prover]
    #[verifier::rlimit(40)]
    pub fn on_message_content(
        &mut self,
        chat_id: Option<i64>,
        message_id: Option<i64>,
        content: Option<VisibleContent>,
    ) -> (e: ShellEffect)
        requires
            old(self).wf(),
        ensures
            final(self).wf(),
            (final(self)@, e@) == message_content_spec(old(self)@, chat_id, message_id, content),
    {
        match (chat_id, message_id) {
            (Some(c), Some(i)) => {
                let ghost cv = content;
                let (new_content, files) = match content {
                    Some(v) => {
                        let VisibleContent { content: mc, preview_file, full_file } = v;
                        (Some(mc), Some((preview_file, full_file)))
                    },
                    None => (None, None),
                };
                assert(new_content == (match cv {
                    Some(v) => Some(v.content),
                    None => None::<MessageContent>,
                }));
                if !self.messages.replace_content(c, i, new_content) {
                    return ShellEffect::none();
                }
                let downloads = match files {
                    Some((preview_file, full_file)) => {
                        let placeholder = VisibleContent {
                            content: MessageContent {
                                kind: crate::shell::MessageKind::Text,
                                text: String::new(),
                                photo: None,
                                photo_full: None,
                                photo_full_width: 0,
                                photo_full_height: 0,
                                links: Vec::new(),
                            },
                            preview_file,
                            full_file,
                        };
                        proof {
                            lemma_watch_photos_files_only(self@, placeholder, cv->0, c, i);
                        }
                        self.watch_photos(&placeholder, c, i)
                    },
                    None => {
                        let v: Vec<Request> = Vec::new();
                        assert(requests_view(v@) =~= Seq::<RequestView>::empty());
                        v
                    },
                };
                let mut e = ShellEffect { send: downloads, ui: Vec::new() };
                assert(e@.ui =~= Seq::<UiView>::empty());
                self.push_conversation_if_open(&mut e, c);
                assert(Seq::<UiView>::empty() + conversation_if_open(self@, c) =~= conversation_if_open(self@, c));
                e
            },
            _ => ShellEffect::none(),
        }
    }

    /// `messages`, with the `@extra` and the objects of `messages`.
    #[verifier::spinoff_prover]
    #[verifier::rlimit(60)]
    pub fn on_messages(&mut self, extra: &str, msgs: &[IncomingMessage]) -> (e: ShellEffect)
        requires
            old(self).wf(),
        ensures
            final(self).wf(),
            (final(self)@, e@) == messages_spec(old(self)@, extra@, msgs@),
    {
        let ghost m0 = self@;
        let mut chat: Option<i64> = None;
        let mut changed = false;
        let mut inserted: Vec<(i64, i64)> = Vec::new();
        let mut fetch: Vec<i64> = Vec::new();
        let mut downloads: Vec<Request> = Vec::new();
        assert(msgs@.take(0) =~= Seq::<IncomingMessage>::empty());
        assert(requests_view(downloads@) =~= Seq::<RequestView>::empty());
        let mut k: usize = 0;
        while k < msgs.len()
            invariant
                k <= msgs.len(),
                self.wf(),
                self@ == batch_spec(m0, msgs@.take(k as int)).m,
                chat == batch_spec(m0, msgs@.take(k as int)).chat,
                changed == batch_spec(m0, msgs@.take(k as int)).changed,
                inserted@ == batch_spec(m0, msgs@.take(k as int)).inserted,
                fetch@ == batch_spec(m0, msgs@.take(k as int)).fetch,
                requests_view(downloads@) == batch_spec(m0, msgs@.take(k as int)).downloads,
            decreases msgs.len() - k,
        {
            assert(msgs@.take(k + 1).drop_last() =~= msgs@.take(k as int));
            assert(msgs@.take(k + 1).last() == msgs@[k as int]);
            let msg = &msgs[k];
            let (r, mut d) = self.remember_message(msg);
            let ghost before = requests_view(downloads@);
            let ghost dv = requests_view(d@);
            match r {
                None => {},
                Some((c, i, ch, ins)) => {
                    chat = Some(c);
                    changed = changed || ch;
                    if ins {
                        inserted.push((c, i));
                    }
                    if let Some(u) = msg.any_sender_user {
                        if self.book.user_name(u).is_none() && self.my_user_id != Some(u) {
                            fetch.push(u);
                        }
                    }
                },
            }
            downloads.append(&mut d);
            assert(requests_view(downloads@) =~= before + dv);
            k += 1;
        }
        assert(msgs@.take(msgs.len() as int) =~= msgs@);
        if let Some(h) = history_id(extra) {
            let ids = chat_message_ids(&inserted, h);
            let chat_empty = self.messages.bucket(h).len() == 0;
            self.history.finish(h, ids.as_slice(), chat_empty);
            if chat.is_none() {
                chat = Some(h);
            }
        }
        let users = sorted_unique_ids(fetch.as_slice());
        let ghost want = users@.map_values(|u: i64| get_user_view(u));
        let mut send: Vec<Request> = Vec::new();
        let mut j: usize = 0;
        while j < users.len()
            invariant
                j <= users.len(),
                want == users@.map_values(|u: i64| get_user_view(u)),
                requests_view(send@) == want.take(j as int),
            decreases users.len() - j,
        {
            let u = users[j];
            let ghost before = send@;
            send.push(Request::GetUser { user_id: u, extra: labelled("getUser:", u) });
            assert(requests_view(send@) =~= requests_view(before).push(want[j as int]));
            assert(want.take(j + 1) =~= want.take(j as int).push(want[j as int]));
            j += 1;
        }
        assert(want.take(want.len() as int) =~= want);
        let ghost s1 = requests_view(send@);
        let ghost dv = requests_view(downloads@);
        send.append(&mut downloads);
        assert(requests_view(send@) =~= s1 + dv);
        let ghost s2 = requests_view(send@);
        match chat {
            Some(c) => {
                let mut views = self.view_messages(c);
                let ghost vv = requests_view(views@);
                send.append(&mut views);
                assert(requests_view(send@) =~= s2 + vv);
            },
            None => {
                assert(requests_view(send@) =~= s2 + Seq::<RequestView>::empty());
            },
        }
        let mut e = ShellEffect { send, ui: Vec::new() };
        assert(e@.ui =~= Seq::<UiView>::empty());
        if changed {
            let open = self.history.open_chat();
            let shown = if chat.is_some() { chat } else { open };
            if let Some(c) = shown {
                if open == Some(c) || open.is_none() {
                    e.push_ui(self.conversation_update(c));
                }
            }
        }
        e
    }

    /// Handles one TDLib event.
    #[verifier::spinoff_prover]
    #[verifier::rlimit(60)]
    pub fn on_event(&mut self, event: ShellEvent) -> (e: ShellEffect)
        requires
            old(self).wf(),
        ensures
            final(self).wf(),
            (final(self)@, e@) == event_spec(old(self)@, event),
    {
        if self.finished {
            return ShellEffect::none();
        }
        if self.closing {
            return match event {
                ShellEvent::AuthorizationState { state, is_encrypted } => self.on_auth(state.as_str(), is_encrypted),
                ShellEvent::Error { code, message, .. } => {
                    let chars = chars_of(message.as_str());
                    let lower = lower_chars(chars.as_slice());
                    let aborted = chars_of("aborted");
                    if code == 406 || contains_chars(lower.as_slice(), aborted.as_slice()) {
                        ShellEffect::none()
                    } else {
                        let mut line = text("TDLib error ");
                        push_int(&mut line, code);
                        line.append(": ");
                        line.append(message.as_str());
                        let mut e = ShellEffect::none();
                        e.push_ui(UiUpdate::Log(line));
                        e
                    }
                },
                _ => ShellEffect::none(),
            };
        }
        match event {
            ShellEvent::AuthorizationState { state, is_encrypted } => self.on_auth(state.as_str(), is_encrypted),
            ShellEvent::Error { code, message, extra } => self.on_error(code, message.as_str(), extra.as_str()),
            ShellEvent::Accepted { extra } => self.on_ok(extra.as_str()),
            ShellEvent::Chats { extra, chat_ids } => self.on_chats(extra.as_str(), chat_ids.as_slice()),
            ShellEvent::Chat { extra, chat } => self.on_chat_event(extra.as_str(), chat.as_ref()),
            ShellEvent::ChatTitle { chat_id, title } => self.on_title(chat_id, title),
            ShellEvent::ChatPosition { chat_id, position } => self.on_position(chat_id, position),
            ShellEvent::ReadInbox { chat_id, unread_count } => self.on_read_inbox(chat_id, unread_count),
            ShellEvent::ReadOutbox { chat_id, message_id } => self.on_read_outbox(chat_id, message_id),
            ShellEvent::MarkedUnread { chat_id, marked } => self.on_marked_unread(chat_id, marked),
            ShellEvent::LastMessage { chat_id, last_message, positions } =>
                self.on_last_message(chat_id, &last_message, positions.as_slice()),
            ShellEvent::ChatPhoto { chat_id, photo_null, small } => self.on_chat_photo(chat_id, photo_null, small.as_ref()),
            ShellEvent::File(f) => self.on_file(&f),
            ShellEvent::Folders(v) => self.on_folders(v),
            ShellEvent::User { extra, user } => self.on_user(extra.as_str(), user.as_ref()),
            ShellEvent::Users { extra, user_ids } => self.on_users(extra.as_str(), user_ids.as_slice()),
            ShellEvent::Messages { extra, messages } => match messages {
                Some(v) => self.on_messages(extra.as_str(), v.as_slice()),
                None => ShellEffect::none(),
            },
            ShellEvent::Message(msg) => self.on_message_event(&msg),
            ShellEvent::MessageContent { chat_id, message_id, content } =>
                self.on_message_content(chat_id, message_id, content),
            ShellEvent::Other => ShellEffect::none(),
        }
    }

    /// Handles one UI command.
    pub fn on_command(&mut self, command: ShellCommand) -> (e: ShellEffect)
        requires
            old(self).wf(),
        ensures
            final(self).wf(),
            (final(self)@, e@) == command_spec(old(self)@, command),
    {
        if self.finished {
            return ShellEffect::none();
        }
        match command {
            ShellCommand::Close => self.close(),
            ShellCommand::SelectChat(id) => self.select_chat(id),
            ShellCommand::LoadOlder { chat_id } => self.load_older(chat_id),
            ShellCommand::SendText { chat_id, text } => self.send_text(chat_id, text.as_str()),
            ShellCommand::SelectFolder(f) => self.select_folder(f),
            ShellCommand::Search(q) => self.search(q.as_str()),
            ShellCommand::LoadContacts => self.load_contacts(),
            ShellCommand::OpenContact(u) => self.open_contact(u),
        }
    }
}

/// A finished session does nothing more: every event and every command
/// leaves it as it is, with no request and no update.
pub proof fn law_shell_finished_is_inert(m: ShellModel, e: ShellEvent, c: ShellCommand)
    requires
        m.finished,
    ensures
        event_spec(m, e) == (m, nothing()),
        command_spec(m, c) == (m, nothing()),
{
}

/// Closing sends `close` once: the first close command sends exactly that
/// request and marks the session closing; a second sends nothing.
pub proof fn law_shell_close_sent_once(m: ShellModel)
    requires
        !m.closing,
        !m.finished,
    ensures
        command_spec(m, ShellCommand::Close).1.send == seq![close_view()],
        command_spec(m, ShellCommand::Close).0.closing,
        command_spec(command_spec(m, ShellCommand::Close).0, ShellCommand::Close).1.send.len() == 0,
{
}

/// While the session closes, no event makes it send a request.
pub proof fn law_shell_closing_sends_nothing(m: ShellModel, e: ShellEvent)
    requires
        m.closing,
    ensures
        event_spec(m, e).1.send.len() == 0,
{
}

/// The TDLib parameters go out once: once sent, a later request for them
/// is answered with no request.
pub proof fn law_shell_parameters_sent_once(m: ShellModel, state: String, encrypted: bool)
    requires
        m.sent_parameters,
        state@ == "authorizationStateWaitTdlibParameters"@,
    ensures
        event_spec(m, ShellEvent::AuthorizationState { state, is_encrypted: encrypted }).1.send.len() == 0,
{
    reveal_strlit("authorizationStateWaitTdlibParameters");
    reveal_strlit("authorizationStateWaitEncryptionKey");
    reveal_strlit("authorizationStateReady");
    reveal_strlit("authorizationStateLoggingOut");
    reveal_strlit("authorizationStateClosed");
}

/// The parameters the session sends keep the database key empty and use
/// the production data centres; the key check sends the empty key.
pub proof fn law_shell_database_key_stays_empty(cfg: SessionConfig)
    ensures
        params_view(cfg) matches RequestView::SetTdlibParameters(p) && p.database_encryption_key == ""@
            && !p.use_test_dc,
        check_key_view() matches RequestView::CheckDatabaseEncryptionKey { encryption_key, .. } && encryption_key
            == ""@,
{
}

/// How long the window waits for TDLib to close, in milliseconds.
pub const CLOSE_WAIT_MS: u64 = 8_000;

/// The close wait of the window's receive loop at `now_ms`: the time the
/// session was first seen closing, and whether the wait has run out (more
/// than [`CLOSE_WAIT_MS`] since then).
pub open spec fn close_wait_spec(closing: bool, since: Option<u64>, now_ms: u64) -> (Option<u64>, bool) {
    let started = if closing && since is None { Some(now_ms) } else { since };
    (started, match started {
        Some(t) => now_ms - t > CLOSE_WAIT_MS,
        None => false,
    })
}

pub fn close_wait(closing: bool, since: Option<u64>, now_ms: u64) -> (r: (Option<u64>, bool))
    ensures
        r == close_wait_spec(closing, since, now_ms),
{
    let started = if closing && since.is_none() { Some(now_ms) } else { since };
    let expired = match started {
        Some(t) => now_ms > t && now_ms - t > CLOSE_WAIT_MS,
        None => false,
    };
    (started, expired)
}

} // verus!
