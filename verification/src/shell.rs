//! What the long-lived desktop session shows and is asked to do: chat rows,
//! messages, folders and contacts for the UI, the commands the UI sends, and
//! the rules that turn TDLib's data into what the UI shows.

use vstd::prelude::*;
use crate::seqs::{first_where, is_first, lemma_first_where_found, lemma_first_where_none};
use crate::textutil::{
    all_digits, chars_of, decimal, digits_value, is_digit, is_ws, matches_at, occurs_at, push_char,
    push_decimal, starts_with_seq, string_of, trim, trim_seq, lemma_digits_grow,
    lemma_digits_value_nonneg,
};

pub use crate::desktop::{Shell, ShellEffect, ShellEvent};

verus! {

/// Most messages requested per `getChatHistory` page.
pub const HISTORY_LIMIT: i32 = 40;

/// Order given to listed chats before TDLib sends their real position.
pub const SYNTHETIC_ORDER: i64 = 1_000_000;

#[derive(Clone, Debug, PartialEq, Eq)]
pub struct ChatItem {
    pub id: i64,
    pub title: String,
    pub order: i64,
    /// `unread_count` from the chat, or the latest `updateChatReadInbox`.
    pub unread: i32,
    /// TDLib `is_marked_as_unread` when the numeric count is zero.
    pub marked_unread: bool,
    /// Local path of the small chat photo, once TDLib has the file.
    pub avatar: Option<String>,
    /// One-line preview of `last_message` / `updateChatLastMessage`.
    pub preview: String,
    /// Unix time of that last message. `0` when TDLib has none.
    pub preview_date: i64,
    /// Whether `order` came from TDLib rather than the listing position.
    pub real_order: bool,
}

/// Title of a chat that TDLib has not described yet.
pub const PENDING_TITLE: &'static str = "…";

impl ChatItem {
    /// A chat known only by id.
    pub fn empty(id: i64) -> (c: ChatItem)
        ensures
            c.id == id,
            c.title@ == PENDING_TITLE@,
            c.order == 0,
            c.unread == 0,
            !c.marked_unread,
            c.avatar is None,
            c.preview@.len() == 0,
            c.preview_date == 0,
            !c.real_order,
    {
        ChatItem {
            id,
            title: PENDING_TITLE.to_owned(),
            order: 0,
            unread: 0,
            marked_unread: false,
            avatar: None,
            preview: String::new(),
            preview_date: 0,
            real_order: false,
        }
    }
}

#[derive(Clone, Copy, Debug, PartialEq, Eq, Structural)]
pub enum MessageKind {
    Text,
    Photo,
}

#[derive(Clone, Debug, PartialEq, Eq)]
pub struct FolderItem {
    pub id: i32,
    pub title: String,
}

/// One row in the contacts panel. `username` is empty when TDLib has none.
#[derive(Clone, Debug, PartialEq, Eq)]
pub struct ContactItem {
    pub user_id: i64,
    pub name: String,
    /// Active username without a leading `@`.
    pub username: String,
    /// Local path of `profile_photo.small`, once that file has downloaded.
    pub avatar: Option<String>,
}

#[derive(Clone, Debug, PartialEq, Eq)]
pub struct TextMessage {
    pub id: i64,
    pub chat_id: i64,
    pub sender: String,
    /// Plain text, or the photo caption when `kind` is [`MessageKind::Photo`].
    pub text: String,
    pub date: i64,
    pub kind: MessageKind,
    /// Local path of the chat-bubble preview (`m`, else `s`, else a larger size).
    /// Empty until that `downloadFile` finishes.
    pub photo: Option<String>,
    /// Local path of the largest `photoSize` on the message. The popup uses this,
    /// not `photo`, so a 320px preview is not stretched to the window.
    pub photo_full: Option<String>,
    /// Pixel width of the size chosen for `photo_full`. `0` when TDLib omitted it.
    pub photo_full_width: i32,
    /// Pixel height of the size chosen for `photo_full`. `0` when TDLib omitted it.
    pub photo_full_height: i32,
    /// Clickable `http`/`https` spans. Offsets are UTF-8 byte indexes into `text`.
    pub links: Vec<TextLink>,
    /// TDLib `message.is_outgoing`. Receipts are only drawn for these.
    pub outgoing: bool,
    /// Outgoing message whose id is at or below the chat's
    /// `last_read_outbox_message_id`. Incoming messages stay false.
    pub read: bool,
}

/// A URL span inside a message body. `start`/`end` are UTF-8 byte offsets.
#[derive(Clone, Debug, PartialEq, Eq)]
pub struct TextLink {
    pub start: usize,
    pub end: usize,
    pub url: String,
}

#[derive(Clone, Debug, PartialEq, Eq)]
pub enum UiUpdate {
    Log(String),
    Status(String),
    Ready,
    ChatList(Vec<ChatItem>),
    Conversation { chat_id: i64, title: String, messages: Vec<TextMessage> },
    /// Telegram chat folders. The main list is not included; the UI adds All.
    Folders(Vec<FolderItem>),
    /// Chats returned for one search query. The UI merges these with the
    /// folder-filtered list; this does not replace [`UiUpdate::ChatList`].
    SearchResults { query: String, chats: Vec<ChatItem> },
    /// Full contact list, in `getContacts` order, refreshed from `updateUser`.
    Contacts(Vec<ContactItem>),
    /// `createPrivateChat` returned a chat. The UI should select it, then the
    /// following [`UiUpdate::Conversation`] fills the transcript.
    OpenChat(i64),
    Fatal(String),
}

#[derive(Clone, Debug)]
pub enum ShellCommand {
    SelectChat(i64),
    SendText { chat_id: i64, text: String },
    /// `None` is the main chat list.
    SelectFolder(Option<i32>),
    /// Older `getChatHistory` page for the chat that is already open.
    LoadOlder { chat_id: i64 },
    /// Global chat search. An empty query clears remote hits.
    Search(String),
    /// `getContacts`. Later `updateUser` events keep the list current.
    LoadContacts,
    /// `createPrivateChat`, then the same open path as [`ShellCommand::SelectChat`].
    OpenContact(i64),
    Close,
}

/// Whether two half-open byte ranges share a byte.
pub fn ranges_overlap(left: usize, left_end: usize, right: usize, right_end: usize) -> (r: bool)
    ensures
        r == (left < right_end && right < left_end),
{
    left < right_end && right < left_end
}

/// `value` clamped to `0..=i32::MAX`.
pub fn clamp_i32(value: i64) -> (r: i32)
    ensures
        r == (if value < 0 { 0 } else if value > i32::MAX { i32::MAX as int } else { value as int }),
{
    if value < 0 {
        0
    } else if value > i32::MAX as i64 {
        i32::MAX
    } else {
        value as i32
    }
}

/// `s` with every leading copy of `p` removed, as `str::trim_start_matches`
/// does with a string pattern.
pub open spec fn strip_all_prefix(s: Seq<char>, p: Seq<char>) -> Seq<char>
    decreases s.len(),
{
    if p.len() > 0 && starts_with_seq(s, p) {
        strip_all_prefix(s.skip(p.len() as int), p)
    } else {
        s
    }
}

fn strip_all_prefix_chars(s: &[char], p: &[char]) -> (r: Vec<char>)
    ensures
        r@ == strip_all_prefix(s@, p@),
{
    let mut i: usize = 0;
    assert(s@.skip(0) =~= s@);
    while p.len() > 0 && matches_at(s, p, i)
        invariant
            i <= s.len(),
            strip_all_prefix(s@, p@) == strip_all_prefix(s@.skip(i as int), p@),
        decreases s.len() - i,
    {
        proof {
            let t = s@.skip(i as int);
            assert(t.subrange(0, p@.len() as int) =~= s@.subrange(i as int, i + p@.len()));
            assert(t.skip(p@.len() as int) =~= s@.skip(i + p@.len()));
        }
        i += p.len();
    }
    proof {
        let t = s@.skip(i as int);
        if p@.len() > 0 && i + p@.len() <= s@.len() {
            assert(t.subrange(0, p@.len() as int) =~= s@.subrange(i as int, i + p@.len()));
        }
    }
    crate::textutil::range_of(s, i, s.len())
}

pub const AUTH_STATE_PREFIX: &'static str = "authorizationState";

/// The status line for an authorization state.
pub open spec fn status_for_spec(state: Seq<char>) -> Seq<char> {
    if state == "authorizationStateWaitTdlibParameters"@ {
        "Starting TDLib…"@
    } else if state == "authorizationStateWaitEncryptionKey"@ {
        "Checking the empty database key…"@
    } else if state == "authorizationStateReady"@ {
        "Ready"@
    } else if state == "authorizationStateClosing"@ {
        "Closing…"@
    } else if state == "authorizationStateClosed"@ {
        "Closed"@
    } else {
        strip_all_prefix(state, AUTH_STATE_PREFIX@)
    }
}

/// The status line for an authorization state.
pub fn status_for(state: &str) -> (r: String)
    ensures
        r@ == status_for_spec(state@),
{
    let eq = |a: &str, b: &str| -> (r: bool)
        ensures
            r == (a@ == b@),
        { crate::textutil::str_eq(a, b) };
    if eq(state, "authorizationStateWaitTdlibParameters") {
        "Starting TDLib…".to_owned()
    } else if eq(state, "authorizationStateWaitEncryptionKey") {
        "Checking the empty database key…".to_owned()
    } else if eq(state, "authorizationStateReady") {
        "Ready".to_owned()
    } else if eq(state, "authorizationStateClosing") {
        "Closing…".to_owned()
    } else if eq(state, "authorizationStateClosed") {
        "Closed".to_owned()
    } else {
        let s = chars_of(state);
        let p = chars_of(AUTH_STATE_PREFIX);
        let r = strip_all_prefix_chars(s.as_slice(), p.as_slice());
        string_of(r.as_slice())
    }
}

/// An ASCII letter or digit, or `_`.
pub open spec fn is_username_char(c: char) -> bool {
    ('a' <= c && c <= 'z') || ('A' <= c && c <= 'Z') || ('0' <= c && c <= '9') || c == '_'
}

/// One or more username characters.
pub open spec fn username_shaped(s: Seq<char>) -> bool {
    s.len() > 0 && forall|i: int| 0 <= i < s.len() ==> is_username_char(#[trigger] s[i])
}

/// The username a query asks the public directory for: `@name`, or one
/// username-shaped token of at least five characters. Titles with spaces
/// stay local.
pub open spec fn public_search_query_spec(query: Seq<char>) -> Option<Seq<char>> {
    let t = trim_seq(query);
    let explicit = t.len() > 0 && t[0] == '@';
    let body = if explicit { t.drop_first() } else { t };
    if !username_shaped(body) {
        None
    } else if explicit || body.len() >= 5 {
        Some(body)
    } else {
        None
    }
}

/// `@name` and a single username-shaped token. Titles with spaces stay local
/// plus `searchChats` / `searchChatsOnServer`.
pub fn public_search_query(query: &str) -> (r: Option<String>)
    ensures
        match r {
            Some(s) => public_search_query_spec(query@) == Some(s@),
            None => public_search_query_spec(query@) is None,
        },
{
    let t = trim(query);
    let chars = chars_of(t.as_str());
    let explicit = chars.len() > 0 && chars[0] == '@';
    let start: usize = if explicit { 1 } else { 0 };
    let ghost body = if explicit { t@.drop_first() } else { t@ };
    assert(body =~= chars@.skip(start as int));
    if start >= chars.len() {
        return None;
    }
    let mut i = start;
    while i < chars.len()
        invariant
            start <= i <= chars.len(),
            body =~= chars@.skip(start as int),
            t@ == trim_seq(query@),
            chars@ == t@,
            explicit == (t@.len() > 0 && t@[0] == '@'),
            start == (if explicit { 1usize } else { 0usize }),
            body == (if explicit { t@.drop_first() } else { t@ }),
            forall|j: int| 0 <= j < i - start ==> is_username_char(#[trigger] body[j]),
        decreases chars.len() - i,
    {
        let c = chars[i];
        if !(('a' <= c && c <= 'z') || ('A' <= c && c <= 'Z') || ('0' <= c && c <= '9') || c == '_') {
            assert(body[i - start] == c);
            assert(!is_username_char(body[i - start]));
            assert(!username_shaped(body));
            return None;
        }
        i += 1;
    }
    if explicit || chars.len() - start >= 5 {
        let r = crate::textutil::range_of(chars.as_slice(), start, chars.len());
        assert(r@ =~= body);
        Some(string_of(r.as_slice()))
    } else {
        None
    }
}

/// `Search: 1 chat`, or `Search: N chats`.
pub open spec fn search_status_spec(count: nat) -> Seq<char> {
    if count == 1 {
        "Search: 1 chat"@
    } else {
        "Search: "@ + decimal(count) + " chats"@
    }
}

pub fn search_status(count: usize) -> (r: String)
    ensures
        r@ == search_status_spec(count as nat),
{
    if count == 1 {
        return "Search: 1 chat".to_owned();
    }
    let mut s = "Search: ".to_owned();
    push_decimal(&mut s, count as u64);
    let tail = " chats";
    let mut out = s;
    let t = chars_of(tail);
    let mut i: usize = 0;
    let ghost head = out@;
    while i < t.len()
        invariant
            i <= t.len(),
            t@ == tail@,
            out@ == head + t@.take(i as int),
        decreases t.len() - i,
    {
        push_char(&mut out, t[i]);
        assert(t@.take(i + 1) =~= t@.take(i as int).push(t@[i as int]));
        i += 1;
    }
    assert(t@.take(t@.len() as int) =~= t@);
    out
}

/// `str::parse::<u64>`: an optional `+`, then one or more ASCII digits, in range.
pub open spec fn parse_u64_seq(s: Seq<char>) -> Option<u64> {
    let body = if s.len() > 0 && s[0] == '+' { s.drop_first() } else { s };
    if body.len() > 0 && all_digits(body) && digits_value(body) <= u64::MAX {
        Some(digits_value(body) as u64)
    } else {
        None
    }
}

/// `str::parse::<u64>` on characters.
pub fn parse_u64(s: &[char]) -> (r: Option<u64>)
    ensures
        r == parse_u64_seq(s@),
{
    let start: usize = if s.len() > 0 && s[0] == '+' { 1 } else { 0 };
    let ghost body = if s@.len() > 0 && s@[0] == '+' { s@.drop_first() } else { s@ };
    assert(body =~= s@.skip(start as int));
    if start >= s.len() {
        return None;
    }
    let mut acc: u128 = 0;
    let mut i = start;
    while i < s.len()
        invariant
            start <= i <= s.len(),
            body =~= s@.skip(start as int),
            body == (if s@.len() > 0 && s@[0] == '+' { s@.drop_first() } else { s@ }),
            all_digits(s@.subrange(start as int, i as int)),
            acc == digits_value(s@.subrange(start as int, i as int)),
            acc <= u64::MAX,
        decreases s.len() - i,
    {
        let c = s[i];
        assert(s@.subrange(start as int, i + 1).drop_last() =~= s@.subrange(start as int, i as int));
        if !('0' <= c && c <= '9') {
            assert(body[i - start] == c);
            assert(!is_digit(body[i - start]));
            return None;
        }
        let d = (c as u32 - 48) as u128;
        let next = acc * 10 + d;
        assert(all_digits(s@.subrange(start as int, i + 1))) by {
            assert forall|j: int| 0 <= j < i + 1 - start implies is_digit(#[trigger] s@.subrange(start as int, i + 1)[j]) by {
                if j < i - start {
                    assert(s@.subrange(start as int, i + 1)[j] == s@.subrange(start as int, i as int)[j]);
                }
            }
        }
        if next > u64::MAX as u128 {
            proof {
                let sub = s@.subrange(start as int, i + 1);
                assert(sub.last() == c);
                assert(digits_value(sub) == next);
                assert(s@.skip(start as int).take(i + 1 - start) =~= sub);
                lemma_digits_grow(s@.skip(start as int), i + 1 - start);
            }
            return None;
        }
        acc = next;
        i += 1;
    }
    assert(s@.subrange(start as int, s.len() as int) =~= body);
    Some(acc as u64)
}

/// The search generation named in a request's `@extra`, for the three
/// search requests.
pub open spec fn search_generation_spec(extra: Seq<char>) -> Option<u64> {
    if starts_with_seq(extra, "searchChatsOnServer:"@) {
        parse_u64_seq(extra.skip(20))
    } else if starts_with_seq(extra, "searchPublicChats:"@) {
        parse_u64_seq(extra.skip(18))
    } else if starts_with_seq(extra, "searchChats:"@) {
        parse_u64_seq(extra.skip(12))
    } else {
        None
    }
}

pub fn search_generation(extra: &str) -> (r: Option<u64>)
    ensures
        r == search_generation_spec(extra@),
{
    let s = chars_of(extra);
    let on_server = chars_of("searchChatsOnServer:");
    let public = chars_of("searchPublicChats:");
    let chats = chars_of("searchChats:");
    proof {
        reveal_strlit("searchChatsOnServer:");
        reveal_strlit("searchPublicChats:");
        reveal_strlit("searchChats:");
    }
    let start: usize = if matches_at(s.as_slice(), on_server.as_slice(), 0) {
        20
    } else if matches_at(s.as_slice(), public.as_slice(), 0) {
        18
    } else if matches_at(s.as_slice(), chats.as_slice(), 0) {
        12
    } else {
        return None;
    };
    let rest = crate::textutil::range_of(s.as_slice(), start, s.len());
    assert(rest@ =~= s@.skip(start as int));
    parse_u64(rest.as_slice())
}

/// Runs of whitespace as single spaces, as `split_whitespace` then
/// `join(" ")` leave them before the ends are trimmed.
pub open spec fn squeeze_ws(s: Seq<char>) -> Seq<char>
    decreases s.len(),
{
    if s.len() == 0 {
        s
    } else {
        let r = squeeze_ws(s.drop_last());
        if is_ws(s.last()) {
            if r.len() > 0 && r.last() == ' ' {
                r
            } else {
                r.push(' ')
            }
        } else {
            r.push(s.last())
        }
    }
}

/// Longest chat-list preview, in characters, before it is cut.
pub const PREVIEW_MAX: usize = 80;

/// The words of `text` joined by single spaces, cut to [`PREVIEW_MAX`]
/// characters plus `…`.
pub open spec fn collapse_preview_spec(text: Seq<char>) -> Seq<char> {
    let c = trim_seq(squeeze_ws(text));
    if c.len() <= PREVIEW_MAX {
        c
    } else {
        c.take(PREVIEW_MAX as int).push('…')
    }
}

pub fn collapse_preview(text: &str) -> (r: String)
    ensures
        r@ == collapse_preview_spec(text@),
{
    let s = chars_of(text);
    let mut out: Vec<char> = Vec::new();
    let mut i: usize = 0;
    while i < s.len()
        invariant
            i <= s.len(),
            out@ == squeeze_ws(s@.take(i as int)),
        decreases s.len() - i,
    {
        assert(s@.take(i + 1).drop_last() =~= s@.take(i as int));
        let c = s[i];
        if crate::textutil::is_whitespace(c) {
            if !(out.len() > 0 && out[out.len() - 1] == ' ') {
                out.push(' ');
            }
        } else {
            out.push(c);
        }
        i += 1;
    }
    assert(s@.take(s.len() as int) =~= s@);
    let collapsed = crate::textutil::trim_chars(out.as_slice());
    if collapsed.len() <= PREVIEW_MAX {
        return string_of(collapsed.as_slice());
    }
    let mut cut = crate::textutil::range_of(collapsed.as_slice(), 0, PREVIEW_MAX);
    cut.push('…');
    assert(cut@ =~= collapsed@.take(PREVIEW_MAX as int).push('…'));
    string_of(cut.as_slice())
}

/// A user's name: first and last name, trimmed, with a space between when
/// both are there.
pub open spec fn user_name_spec(first: Seq<char>, last: Seq<char>) -> Seq<char> {
    let f = trim_seq(first);
    let l = trim_seq(last);
    if f.len() == 0 {
        l
    } else if l.len() == 0 {
        f
    } else {
        f + seq![' '] + l
    }
}

pub fn user_name(first_name: &str, last_name: &str) -> (r: String)
    ensures
        r@ == user_name_spec(first_name@, last_name@),
{
    let f = trim(first_name);
    let l = trim(last_name);
    if f.as_str().is_empty() {
        l
    } else if l.as_str().is_empty() {
        f
    } else {
        let fc = chars_of(f.as_str());
        let lc = chars_of(l.as_str());
        let mut out: Vec<char> = Vec::new();
        crate::textutil::append_range(&mut out, fc.as_slice(), 0, fc.len());
        out.push(' ');
        crate::textutil::append_range(&mut out, lc.as_slice(), 0, lc.len());
        assert(fc@.subrange(0, fc@.len() as int) =~= fc@);
        assert(lc@.subrange(0, lc@.len() as int) =~= lc@);
        string_of(out.as_slice())
    }
}

/// A trimmed username with its leading `@`s removed, or nothing when it is
/// blank.
pub open spec fn clean_username(name: Seq<char>) -> Option<Seq<char>> {
    let t = trim_seq(name);
    if t.len() == 0 {
        None
    } else {
        Some(strip_all_prefix(t, seq!['@']))
    }
}

/// The username shown for a user: the first active username, else the
/// editable one, else the legacy `username` field; empty when none is set.
pub open spec fn user_username_spec(
    first_active: Option<Seq<char>>,
    editable: Option<Seq<char>>,
    legacy: Option<Seq<char>>,
) -> Seq<char> {
    let a = match first_active { Some(n) => clean_username(n), None => None };
    let e = match editable { Some(n) => clean_username(n), None => None };
    let l = match legacy { Some(n) => clean_username(n), None => None };
    match (a, e, l) {
        (Some(n), _, _) => n,
        (None, Some(n), _) => n,
        (None, None, Some(n)) => n,
        (None, None, None) => Seq::empty(),
    }
}

fn clean_username_of(name: Option<&str>) -> (r: Option<String>)
    ensures
        match (r, name) {
            (Some(s), Some(n)) => clean_username(n@) == Some(s@),
            (None, Some(n)) => clean_username(n@) is None,
            (Some(_), None) => false,
            (None, None) => true,
        },
{
    match name {
        None => None,
        Some(n) => {
            let t = trim(n);
            if t.as_str().is_empty() {
                return None;
            }
            let tc = chars_of(t.as_str());
            let at = vec!['@'];
            assert(at@ =~= seq!['@']);
            let stripped = strip_all_prefix_chars(tc.as_slice(), at.as_slice());
            Some(string_of(stripped.as_slice()))
        },
    }
}

/// The username shown for a user, from the first active username (the
/// first string of `usernames.active_usernames`), `usernames.editable_username`
/// and the legacy `username`.
pub fn user_username(first_active: Option<&str>, editable: Option<&str>, legacy: Option<&str>) -> (r: String)
    ensures
        r@ == user_username_spec(
            match first_active { Some(n) => Some(n@), None => None },
            match editable { Some(n) => Some(n@), None => None },
            match legacy { Some(n) => Some(n@), None => None },
        ),
{
    if let Some(n) = clean_username_of(first_active) {
        return n;
    }
    if let Some(n) = clean_username_of(editable) {
        return n;
    }
    match clean_username_of(legacy) {
        Some(n) => n,
        None => String::new(),
    }
}

/// The chat-list preview of a message, from its content type and its text
/// (the text of `messageText`, the caption of `messagePhoto`).
pub open spec fn snippet_spec(content_type: Seq<char>, text: Seq<char>) -> Seq<char> {
    if content_type == "messageText"@ {
        collapse_preview_spec(text)
    } else if content_type == "messagePhoto"@ {
        if collapse_preview_spec(text).len() == 0 { "Photo"@ } else { collapse_preview_spec(text) }
    } else if content_type == "messageVideo"@ || content_type == "messageVideoNote"@ {
        "Video"@
    } else if content_type == "messageAnimation"@ {
        "GIF"@
    } else if content_type == "messageVoiceNote"@ {
        "Voice message"@
    } else if content_type == "messageAudio"@ {
        "Audio"@
    } else if content_type == "messageDocument"@ {
        "File"@
    } else if content_type == "messageSticker"@ || content_type == "messageAnimatedEmoji"@ {
        "Sticker"@
    } else if content_type == "messageCall"@ {
        "Call"@
    } else if content_type == "messagePoll"@ {
        "Poll"@
    } else if content_type == "messageLocation"@ {
        "Location"@
    } else if content_type == "messageContact"@ {
        "Contact"@
    } else {
        Seq::empty()
    }
}

pub fn message_snippet(content_type: &str, text: &str) -> (r: String)
    ensures
        r@ == snippet_spec(content_type@, text@),
{
    let eq = |a: &str, b: &str| -> (r: bool)
        ensures
            r == (a@ == b@),
        { crate::textutil::str_eq(a, b) };
    if eq(content_type, "messageText") {
        collapse_preview(text)
    } else if eq(content_type, "messagePhoto") {
        let caption = collapse_preview(text);
        if caption.as_str().is_empty() {
            "Photo".to_owned()
        } else {
            caption
        }
    } else if eq(content_type, "messageVideo") || eq(content_type, "messageVideoNote") {
        "Video".to_owned()
    } else if eq(content_type, "messageAnimation") {
        "GIF".to_owned()
    } else if eq(content_type, "messageVoiceNote") {
        "Voice message".to_owned()
    } else if eq(content_type, "messageAudio") {
        "Audio".to_owned()
    } else if eq(content_type, "messageDocument") {
        "File".to_owned()
    } else if eq(content_type, "messageSticker") || eq(content_type, "messageAnimatedEmoji") {
        "Sticker".to_owned()
    } else if eq(content_type, "messageCall") {
        "Call".to_owned()
    } else if eq(content_type, "messagePoll") {
        "Poll".to_owned()
    } else if eq(content_type, "messageLocation") {
        "Location".to_owned()
    } else if eq(content_type, "messageContact") {
        "Contact".to_owned()
    } else {
        String::new()
    }
}

/// [`ChatItem`] with its strings as character sequences.
pub struct ChatItemView {
    pub id: i64,
    pub title: Seq<char>,
    pub order: i64,
    pub unread: i32,
    pub marked_unread: bool,
    pub avatar: Option<Seq<char>>,
    pub preview: Seq<char>,
    pub preview_date: i64,
    pub real_order: bool,
}

pub open spec fn opt_text(o: Option<String>) -> Option<Seq<char>> {
    match o {
        Some(s) => Some(s@),
        None => None,
    }
}

impl View for ChatItem {
    type V = ChatItemView;

    open spec fn view(&self) -> ChatItemView {
        ChatItemView {
            id: self.id,
            title: self.title@,
            order: self.order,
            unread: self.unread,
            marked_unread: self.marked_unread,
            avatar: opt_text(self.avatar),
            preview: self.preview@,
            preview_date: self.preview_date,
            real_order: self.real_order,
        }
    }
}

pub open spec fn chats_view(v: Seq<ChatItem>) -> Seq<ChatItemView> {
    v.map_values(|c: ChatItem| c@)
}

pub(crate) fn copy_opt(o: &Option<String>) -> (r: Option<String>)
    ensures
        opt_text(r) == opt_text(*o),
{
    match o {
        Some(s) => Some(s.clone()),
        None => None,
    }
}

impl ChatItem {
    /// A copy with the same fields.
    pub fn copy(&self) -> (r: ChatItem)
        ensures
            r@ == self@,
    {
        ChatItem {
            id: self.id,
            title: self.title.clone(),
            order: self.order,
            unread: self.unread,
            marked_unread: self.marked_unread,
            avatar: copy_opt(&self.avatar),
            preview: self.preview.clone(),
            preview_date: self.preview_date,
            real_order: self.real_order,
        }
    }
}

/// A title TDLib has not sent yet: empty, or the placeholder.
pub open spec fn is_pending_title(t: Seq<char>) -> bool {
    t.len() == 0 || t == PENDING_TITLE@
}

/// `a` is listed above `b`: a higher order, or the same order and a higher id.
pub open spec fn ranked_before(a: ChatItemView, b: ChatItemView) -> bool {
    a.order > b.order || (a.order == b.order && a.id > b.id)
}

pub open spec fn insert_ranked(s: Seq<ChatItemView>, x: ChatItemView) -> Seq<ChatItemView>
    decreases s.len(),
{
    if s.len() == 0 {
        seq![x]
    } else if ranked_before(x, s[0]) {
        seq![x] + s
    } else {
        seq![s[0]] + insert_ranked(s.drop_first(), x)
    }
}

/// The stable sort of `s` into chat-list order.
pub open spec fn sort_ranked(s: Seq<ChatItemView>) -> Seq<ChatItemView>
    decreases s.len(),
{
    if s.len() == 0 {
        s
    } else {
        insert_ranked(sort_ranked(s.drop_last()), s.last())
    }
}

pub open spec fn chat_has_id(id: i64) -> spec_fn(ChatItemView) -> bool {
    |c: ChatItemView| c.id == id
}

/// The chat with this id in the chat table.
pub open spec fn chat_with_id(chats: Seq<ChatItemView>, id: i64) -> Option<ChatItemView> {
    match first_where(chats, chat_has_id(id)) {
        Some(i) => Some(chats[i]),
        None => None,
    }
}

/// The listed chats the table knows, in listing order, leaving out those
/// with neither a position nor a title.
pub open spec fn main_candidates(chats: Seq<ChatItemView>, listed: Seq<i64>) -> Seq<ChatItemView>
    decreases listed.len(),
{
    if listed.len() == 0 {
        Seq::empty()
    } else {
        let rest = main_candidates(chats, listed.drop_last());
        match chat_with_id(chats, listed.last()) {
            Some(c) => if c.order != 0 || c.title != PENDING_TITLE@ { rest.push(c) } else { rest },
            None => rest,
        }
    }
}

pub open spec fn folder_is(folder: i32) -> spec_fn((i32, i64)) -> bool {
    |e: (i32, i64)| e.0 == folder
}

/// The order a chat has in one folder, if it has one there.
pub open spec fn folder_order(orders: Seq<(i32, i64)>, folder: i32) -> Option<i64> {
    match first_where(orders, folder_is(folder)) {
        Some(i) => Some(orders[i].1),
        None => None,
    }
}

/// The titled chats with a position in `folder`, each with that position
/// as its order.
pub open spec fn folder_candidates(
    chats: Seq<ChatItemView>,
    orders: Seq<(i64, Seq<(i32, i64)>)>,
    folder: i32,
) -> Seq<ChatItemView>
    decreases orders.len(),
{
    if orders.len() == 0 {
        Seq::empty()
    } else {
        let rest = folder_candidates(chats, orders.drop_last(), folder);
        let (id, fos) = orders.last();
        match (folder_order(fos, folder), chat_with_id(chats, id)) {
            (Some(o), Some(c)) => if o != 0 && !is_pending_title(c.title) {
                rest.push(ChatItemView { order: o, ..c })
            } else {
                rest
            },
            _ => rest,
        }
    }
}

pub open spec fn orders_view(v: Seq<(i64, Vec<(i32, i64)>)>) -> Seq<(i64, Seq<(i32, i64)>)> {
    v.map_values(|e: (i64, Vec<(i32, i64)>)| (e.0, e.1@))
}

/// At most `limit` of `s`, from the front.
pub open spec fn take_upto<T>(s: Seq<T>, limit: int) -> Seq<T> {
    if s.len() > limit { s.take(if limit < 0 { 0 } else { limit }) } else { s }
}

/// The chat list the UI shows: the main list, or one folder; highest order
/// first, ties by the higher id; at most `chat_limit` rows.
pub open spec fn chat_list_spec(
    chats: Seq<ChatItemView>,
    listed: Seq<i64>,
    orders: Seq<(i64, Seq<(i32, i64)>)>,
    active_folder: Option<i32>,
    chat_limit: i32,
) -> Seq<ChatItemView> {
    let candidates = match active_folder {
        Some(f) => folder_candidates(chats, orders, f),
        None => main_candidates(chats, listed),
    };
    take_upto(sort_ranked(candidates), chat_limit as int)
}

proof fn lemma_insert_ranked_at(s: Seq<ChatItemView>, x: ChatItemView, j: int)
    requires
        0 <= j <= s.len(),
        forall|k: int| 0 <= k < j ==> !ranked_before(x, #[trigger] s[k]),
        j == s.len() || ranked_before(x, s[j]),
    ensures
        insert_ranked(s, x) == s.insert(j, x),
    decreases s.len(),
{
    if s.len() == 0 || j == 0 {
        assert(insert_ranked(s, x) =~= s.insert(j, x));
    } else {
        let t = s.drop_first();
        assert forall|k: int| 0 <= k < j - 1 implies !ranked_before(x, #[trigger] t[k]) by {
            assert(t[k] == s[k + 1]);
        }
        if j < s.len() {
            assert(t[j - 1] == s[j]);
        }
        lemma_insert_ranked_at(t, x, j - 1);
        assert(insert_ranked(s, x) =~= s.insert(j, x));
    }
}

fn chat_index(chats: &[ChatItem], id: i64) -> (r: Option<usize>)
    ensures
        match r {
            Some(i) => first_where(chats_view(chats@), chat_has_id(id)) == Some(i as int) && i < chats.len(),
            None => first_where(chats_view(chats@), chat_has_id(id)) is None,
        },
{
    let ghost v = chats_view(chats@);
    let mut i: usize = 0;
    while i < chats.len()
        invariant
            i <= chats.len(),
            v == chats_view(chats@),
            forall|j: int| 0 <= j < i ==> !chat_has_id(id)(#[trigger] v[j]),
        decreases chats.len() - i,
    {
        if chats[i].id == id {
            proof {
                assert(chat_has_id(id)(v[i as int]));
                lemma_first_where_found(v, chat_has_id(id), i as int);
            }
            return Some(i);
        }
        assert(!chat_has_id(id)(v[i as int]));
        i += 1;
    }
    proof {
        lemma_first_where_none(v, chat_has_id(id));
    }
    None
}

fn order_in_folder(orders: &[(i32, i64)], folder: i32) -> (r: Option<i64>)
    ensures
        r == folder_order(orders@, folder),
{
    let mut i: usize = 0;
    while i < orders.len()
        invariant
            i <= orders.len(),
            forall|j: int| 0 <= j < i ==> !folder_is(folder)(#[trigger] orders@[j]),
        decreases orders.len() - i,
    {
        if orders[i].0 == folder {
            proof {
                lemma_first_where_found(orders@, folder_is(folder), i as int);
            }
            return Some(orders[i].1);
        }
        i += 1;
    }
    proof {
        lemma_first_where_none(orders@, folder_is(folder));
    }
    None
}

pub(crate) fn title_pending(t: &str) -> (r: bool)
    ensures
        r == is_pending_title(t@),
{
    t.is_empty() || crate::textutil::str_eq(t, PENDING_TITLE)
}

/// Puts `x` into the ranked list `out` before the first row it ranks above.
fn insert_by_rank(out: &mut Vec<ChatItem>, x: ChatItem)
    ensures
        chats_view(final(out)@) == insert_ranked(chats_view(old(out)@), x@),
{
    let ghost sorted = chats_view(out@);
    let mut j: usize = 0;
    while j < out.len() && !(x.order > out[j].order || (x.order == out[j].order && x.id > out[j].id))
        invariant
            j <= out.len(),
            sorted == chats_view(out@),
            forall|k: int| 0 <= k < j ==> !ranked_before(x@, #[trigger] sorted[k]),
        decreases out.len() - j,
    {
        j += 1;
    }
    proof {
        lemma_insert_ranked_at(sorted, x@, j as int);
    }
    let ghost xv = x@;
    out.insert(j, x);
    assert(chats_view(out@) =~= sorted.insert(j as int, xv));
}

/// The chat list the UI shows: the listed chats of the main list, or the
/// chats of the active folder; highest order first, ties by the higher id;
/// at most `chat_limit` rows.
pub fn chat_list_items(
    chats: &[ChatItem],
    listed: &[i64],
    folder_orders: &[(i64, Vec<(i32, i64)>)],
    active_folder: Option<i32>,
    chat_limit: i32,
) -> (r: Vec<ChatItem>)
    ensures
        chats_view(r@) == chat_list_spec(
            chats_view(chats@),
            listed@,
            orders_view(folder_orders@),
            active_folder,
            chat_limit,
        ),
{
    let ghost cv = chats_view(chats@);
    let mut out: Vec<ChatItem> = Vec::new();
    assert(chats_view(out@) =~= Seq::<ChatItemView>::empty());
    match active_folder {
        Some(folder) => {
            let ghost ov = orders_view(folder_orders@);
            let mut i: usize = 0;
            while i < folder_orders.len()
                invariant
                    i <= folder_orders.len(),
                    cv == chats_view(chats@),
                    ov == orders_view(folder_orders@),
                    chats_view(out@) == sort_ranked(folder_candidates(cv, ov.take(i as int), folder)),
                decreases folder_orders.len() - i,
            {
                assert(ov.take(i + 1).drop_last() =~= ov.take(i as int));
                let id = folder_orders[i].0;
                if let Some(o) = order_in_folder(folder_orders[i].1.as_slice(), folder) {
                    if let Some(k) = chat_index(chats, id) {
                        if o != 0 && !title_pending(chats[k].title.as_str()) {
                            let mut c = chats[k].copy();
                            c.order = o;
                            proof {
                                let f = folder_candidates(cv, ov.take(i as int), folder);
                                assert(f.push(c@).drop_last() =~= f);
                            }
                            insert_by_rank(&mut out, c);
                        }
                    }
                }
                i += 1;
            }
            assert(ov.take(ov.len() as int) =~= ov);
        },
        None => {
            let mut i: usize = 0;
            while i < listed.len()
                invariant
                    i <= listed.len(),
                    cv == chats_view(chats@),
                    chats_view(out@) == sort_ranked(main_candidates(cv, listed@.take(i as int))),
                decreases listed.len() - i,
            {
                assert(listed@.take(i + 1).drop_last() =~= listed@.take(i as int));
                if let Some(k) = chat_index(chats, listed[i]) {
                    let c = &chats[k];
                    if c.order != 0 || !crate::textutil::str_eq(c.title.as_str(), PENDING_TITLE) {
                        let x = c.copy();
                        proof {
                            let f = main_candidates(cv, listed@.take(i as int));
                            assert(f.push(x@).drop_last() =~= f);
                        }
                        insert_by_rank(&mut out, x);
                    }
                }
                i += 1;
            }
            assert(listed@.take(listed@.len() as int) =~= listed@);
        },
    }
    let limit: usize = if chat_limit < 0 { 0 } else { chat_limit as usize };
    let ghost all = chats_view(out@);
    out.truncate(limit);
    assert(chats_view(out@) =~= take_upto(all, chat_limit as int));
    out
}

/// Where `insert_ranked` puts `x`.
pub open spec fn rank_pos(s: Seq<ChatItemView>, x: ChatItemView) -> int
    decreases s.len(),
{
    if s.len() == 0 || ranked_before(x, s[0]) {
        0
    } else {
        1 + rank_pos(s.drop_first(), x)
    }
}

proof fn lemma_rank_pos(s: Seq<ChatItemView>, x: ChatItemView)
    ensures
        0 <= rank_pos(s, x) <= s.len(),
        forall|k: int| 0 <= k < rank_pos(s, x) ==> !ranked_before(x, #[trigger] s[k]),
        rank_pos(s, x) < s.len() ==> ranked_before(x, s[rank_pos(s, x)]),
    decreases s.len(),
{
    if s.len() > 0 && !ranked_before(x, s[0]) {
        let t = s.drop_first();
        lemma_rank_pos(t, x);
        assert forall|k: int| 0 <= k < rank_pos(s, x) implies !ranked_before(x, #[trigger] s[k]) by {
            if k > 0 {
                assert(s[k] == t[k - 1]);
            }
        }
        if rank_pos(s, x) < s.len() {
            assert(s[rank_pos(s, x)] == t[rank_pos(t, x)]);
        }
    }
}

proof fn lemma_sort_ranked(s: Seq<ChatItemView>)
    ensures
        forall|i: int, j: int|
            0 <= i < j < sort_ranked(s).len() ==> !ranked_before(
                #[trigger] sort_ranked(s)[j],
                #[trigger] sort_ranked(s)[i],
            ),
        sort_ranked(s).len() == s.len(),
    decreases s.len(),
{
    if s.len() > 0 {
        lemma_sort_ranked(s.drop_last());
        let t = sort_ranked(s.drop_last());
        let x = s.last();
        lemma_rank_pos(t, x);
        let j = rank_pos(t, x);
        lemma_insert_ranked_at(t, x, j);
        let r = insert_ranked(t, x);
        assert forall|a: int, b: int| 0 <= a < b < r.len() implies !ranked_before(#[trigger] r[b], #[trigger] r[a]) by {
            if a < j && b < j {
                assert(r[a] == t[a] && r[b] == t[b]);
            } else if a < j && b == j {
                assert(r[a] == t[a] && r[b] == x);
            } else if a < j {
                assert(r[a] == t[a] && r[b] == t[b - 1]);
            } else if a == j {
                assert(r[a] == x && r[b] == t[b - 1]);
                assert(ranked_before(x, t[j]));
                if b - 1 > j {
                    assert(!ranked_before(t[b - 1], t[j]));
                }
            } else {
                assert(r[a] == t[a - 1] && r[b] == t[b - 1]);
            }
        }
    }
}

/// The chat list is ranked: every row has an order at least that of the
/// rows below it, and among equal orders the higher id comes first; it has
/// at most `chat_limit` rows.
pub proof fn law_chat_list_ranked(
    chats: Seq<ChatItemView>,
    listed: Seq<i64>,
    orders: Seq<(i64, Seq<(i32, i64)>)>,
    active_folder: Option<i32>,
    chat_limit: i32,
)
    ensures
        ({
            let r = chat_list_spec(chats, listed, orders, active_folder, chat_limit);
            &&& forall|i: int, j: int| 0 <= i < j < r.len() ==> (#[trigger] r[i]).order > (#[trigger] r[j]).order
                || (r[i].order == r[j].order && r[i].id >= r[j].id)
            &&& r.len() <= (if chat_limit < 0 { 0 } else { chat_limit as int })
        }),
{
    let candidates = match active_folder {
        Some(f) => folder_candidates(chats, orders, f),
        None => main_candidates(chats, listed),
    };
    lemma_sort_ranked(candidates);
    let sorted = sort_ranked(candidates);
    let r = chat_list_spec(chats, listed, orders, active_folder, chat_limit);
    assert forall|i: int, j: int| 0 <= i < j < r.len() implies (#[trigger] r[i]).order > (#[trigger] r[j]).order
        || (r[i].order == r[j].order && r[i].id >= r[j].id) by {
        assert(r[i] == sorted[i] && r[j] == sorted[j]);
        assert(!ranked_before(sorted[j], sorted[i]));
    }
}

/// Search hits after a reply: each chat id once, in the order replies
/// brought them.
pub open spec fn merge_ids(known: Seq<i64>, incoming: Seq<i64>) -> Seq<i64>
    decreases incoming.len(),
{
    if incoming.len() == 0 {
        known
    } else {
        let m = merge_ids(known, incoming.drop_last());
        if m.contains(incoming.last()) { m } else { m.push(incoming.last()) }
    }
}

/// A chat the table has no title for.
pub open spec fn needs_title(chats: Seq<ChatItemView>, id: i64) -> bool {
    match chat_with_id(chats, id) {
        Some(c) => is_pending_title(c.title),
        None => true,
    }
}

/// The new hits of a reply whose titles must be fetched, in reply order.
pub open spec fn untitled_hits(known: Seq<i64>, incoming: Seq<i64>, chats: Seq<ChatItemView>) -> Seq<i64>
    decreases incoming.len(),
{
    if incoming.len() == 0 {
        Seq::empty()
    } else {
        let rest = untitled_hits(known, incoming.drop_last(), chats);
        let id = incoming.last();
        if !merge_ids(known, incoming.drop_last()).contains(id) && needs_title(chats, id) {
            rest.push(id)
        } else {
            rest
        }
    }
}

fn contains_id(v: &[i64], id: i64) -> (r: bool)
    ensures
        r == v@.contains(id),
{
    let mut i: usize = 0;
    while i < v.len()
        invariant
            i <= v.len(),
            forall|j: int| 0 <= j < i ==> v@[j] != id,
        decreases v.len() - i,
    {
        if v[i] == id {
            assert(v@[i as int] == id);
            return true;
        }
        i += 1;
    }
    false
}

/// Adds the chat ids of one search reply to the hits, each once, and
/// returns the new hits whose titles are not known yet.
pub fn merge_search_ids(search_ids: &mut Vec<i64>, incoming: &[i64], chats: &[ChatItem]) -> (missing: Vec<i64>)
    ensures
        final(search_ids)@ == merge_ids(old(search_ids)@, incoming@),
        missing@ == untitled_hits(old(search_ids)@, incoming@, chats_view(chats@)),
{
    let ghost known = search_ids@;
    let ghost cv = chats_view(chats@);
    let mut missing: Vec<i64> = Vec::new();
    let mut i: usize = 0;
    while i < incoming.len()
        invariant
            i <= incoming.len(),
            cv == chats_view(chats@),
            search_ids@ == merge_ids(known, incoming@.take(i as int)),
            missing@ == untitled_hits(known, incoming@.take(i as int), cv),
        decreases incoming.len() - i,
    {
        assert(incoming@.take(i + 1).drop_last() =~= incoming@.take(i as int));
        let id = incoming[i];
        if !contains_id(search_ids.as_slice(), id) {
            search_ids.push(id);
            let pending = match chat_index(chats, id) {
                Some(k) => title_pending(chats[k].title.as_str()),
                None => true,
            };
            if pending {
                missing.push(id);
            }
        }
        i += 1;
    }
    assert(incoming@.take(incoming@.len() as int) =~= incoming@);
    missing
}

/// No id appears twice.
pub open spec fn ids_unique(s: Seq<i64>) -> bool {
    forall|a: int, b: int| 0 <= a < b < s.len() ==> s[a] != s[b]
}

/// Search hits stay free of repeats, and every id of a reply is among them
/// afterwards.
pub proof fn law_search_hits_unique(known: Seq<i64>, incoming: Seq<i64>)
    requires
        ids_unique(known),
    ensures
        ids_unique(merge_ids(known, incoming)),
        forall|k: int| 0 <= k < incoming.len() ==> merge_ids(known, incoming).contains(#[trigger] incoming[k]),
        forall|k: int| 0 <= k < known.len() ==> merge_ids(known, incoming)[k] == known[k],
        known.len() <= merge_ids(known, incoming).len(),
    decreases incoming.len(),
{
    if incoming.len() > 0 {
        let front = incoming.drop_last();
        law_search_hits_unique(known, front);
        let m = merge_ids(known, front);
        let x = incoming.last();
        let r = merge_ids(known, incoming);
        if !m.contains(x) {
            assert forall|a: int, b: int| 0 <= a < b < r.len() implies r[a] != r[b] by {
                if b == r.len() - 1 {
                    assert(r[a] == m[a]);
                }
            }
            assert(r[r.len() - 1] == x);
        }
        assert forall|k: int| 0 <= k < incoming.len() implies r.contains(#[trigger] incoming[k]) by {
            if k < incoming.len() - 1 {
                assert(front[k] == incoming[k]);
                assert(m.contains(front[k]));
                let w = choose|w: int| 0 <= w < m.len() && m[w] == front[k];
                assert(r[w] == m[w]);
            } else if m.contains(x) {
            } else {
                assert(r[r.len() - 1] == x);
            }
        }
    }
}

/// The search rows: the hits the table has a title for, in hit order.
pub open spec fn search_rows(ids: Seq<i64>, chats: Seq<ChatItemView>) -> Seq<ChatItemView>
    decreases ids.len(),
{
    if ids.len() == 0 {
        Seq::empty()
    } else {
        let rest = search_rows(ids.drop_last(), chats);
        match chat_with_id(chats, ids.last()) {
            Some(c) => if is_pending_title(c.title) { rest } else { rest.push(c) },
            None => rest,
        }
    }
}

/// The chats shown for the current search.
pub fn search_chats(search_ids: &[i64], chats: &[ChatItem]) -> (r: Vec<ChatItem>)
    ensures
        chats_view(r@) == search_rows(search_ids@, chats_view(chats@)),
{
    let ghost cv = chats_view(chats@);
    let mut out: Vec<ChatItem> = Vec::new();
    assert(chats_view(out@) =~= Seq::<ChatItemView>::empty());
    let mut i: usize = 0;
    while i < search_ids.len()
        invariant
            i <= search_ids.len(),
            cv == chats_view(chats@),
            chats_view(out@) == search_rows(search_ids@.take(i as int), cv),
        decreases search_ids.len() - i,
    {
        assert(search_ids@.take(i + 1).drop_last() =~= search_ids@.take(i as int));
        if let Some(k) = chat_index(chats, search_ids[i]) {
            if !title_pending(chats[k].title.as_str()) {
                let ghost before = out@;
                out.push(chats[k].copy());
                assert(chats_view(out@) =~= chats_view(before).push(cv[k as int]));
            }
        }
        i += 1;
    }
    assert(search_ids@.take(search_ids@.len() as int) =~= search_ids@);
    out
}

/// One search reply arrived for generation `gen`: while it is the current
/// generation, one fewer reply is outstanding. Returns whether all of them
/// are in and none failed.
pub fn note_search_done(gen: u64, current: u64, pending: &mut u8, error: bool) -> (done: bool)
    ensures
        gen != current ==> (!done && *final(pending) == *old(pending)),
        gen == current ==> *final(pending) == (if *old(pending) == 0 { 0 } else { *old(pending) - 1 })
            && done == (*final(pending) == 0 && !error),
{
    if gen != current {
        return false;
    }
    *pending = if *pending == 0 { 0 } else { *pending - 1 };
    *pending == 0 && !error
}

/// Most message ids marked as viewed at once.
pub const VIEW_LIMIT: usize = 100;

pub open spec fn id_before() -> spec_fn(i64, i64) -> bool {
    |a: i64, b: i64| a < b
}

/// The ids to mark as viewed: the newest [`VIEW_LIMIT`] of the chat's
/// messages, oldest first.
pub open spec fn view_ids_spec(ids: Seq<i64>) -> Seq<i64> {
    let sorted = crate::seqs::sort_by_insertion(ids, id_before());
    if sorted.len() > VIEW_LIMIT {
        sorted.skip(sorted.len() - VIEW_LIMIT)
    } else {
        sorted
    }
}

/// The ids in ascending order.
pub fn sorted_ids(ids: &[i64]) -> (r: Vec<i64>)
    ensures
        r@ == crate::seqs::sort_by_insertion(ids@, id_before()),
{
    let mut sorted: Vec<i64> = Vec::new();
    let mut i: usize = 0;
    while i < ids.len()
        invariant
            i <= ids.len(),
            sorted@ == crate::seqs::sort_by_insertion(ids@.take(i as int), id_before()),
        decreases ids.len() - i,
    {
        assert(ids@.take(i + 1).drop_last() =~= ids@.take(i as int));
        let x = ids[i];
        let ghost s0 = sorted@;
        let mut j: usize = 0;
        while j < sorted.len() && !(x < sorted[j])
            invariant
                j <= sorted.len(),
                s0 == sorted@,
                forall|k: int| 0 <= k < j ==> !id_before()(x, #[trigger] s0[k]),
            decreases sorted.len() - j,
        {
            j += 1;
        }
        proof {
            crate::seqs::lemma_insert_by_at(s0, x, id_before(), j as int);
        }
        sorted.insert(j, x);
        i += 1;
    }
    assert(ids@.take(ids@.len() as int) =~= ids@);
    sorted
}

/// `s` without an element equal to the one before it.
pub open spec fn dedup_spec(s: Seq<i64>) -> Seq<i64>
    decreases s.len(),
{
    if s.len() == 0 {
        s
    } else {
        let d = dedup_spec(s.drop_last());
        if d.len() > 0 && d.last() == s.last() { d } else { d.push(s.last()) }
    }
}

/// The ids ascending, each once.
pub fn sorted_unique_ids(ids: &[i64]) -> (r: Vec<i64>)
    ensures
        r@ == dedup_spec(crate::seqs::sort_by_insertion(ids@, id_before())),
{
    let sorted = sorted_ids(ids);
    let ghost s = sorted@;
    let mut out: Vec<i64> = Vec::new();
    let mut k: usize = 0;
    while k < sorted.len()
        invariant
            k <= sorted.len(),
            s == sorted@,
            out@ == dedup_spec(s.take(k as int)),
        decreases sorted.len() - k,
    {
        assert(s.take(k + 1).drop_last() =~= s.take(k as int));
        if out.len() == 0 || out[out.len() - 1] != sorted[k] {
            out.push(sorted[k]);
        }
        k += 1;
    }
    assert(s.take(s.len() as int) =~= s);
    out
}

/// The ids to mark as viewed in an open chat.
pub fn open_message_ids(ids: &[i64]) -> (r: Vec<i64>)
    ensures
        r@ == view_ids_spec(ids@),
{
    let sorted = sorted_ids(ids);
    if sorted.len() > VIEW_LIMIT {
        let start = sorted.len() - VIEW_LIMIT;
        let mut out: Vec<i64> = Vec::new();
        let mut k = start;
        while k < sorted.len()
            invariant
                start <= k <= sorted.len(),
                out@ == sorted@.subrange(start as int, k as int),
            decreases sorted.len() - k,
        {
            out.push(sorted[k]);
            k += 1;
        }
        assert(out@ =~= sorted@.skip(start as int));
        out
    } else {
        sorted
    }
}

/// The smallest of the ids.
pub open spec fn min_id(ids: Seq<i64>) -> Option<i64>
    decreases ids.len(),
{
    if ids.len() == 0 {
        None
    } else {
        match min_id(ids.drop_last()) {
            Some(m) => Some(if ids.last() < m { ids.last() } else { m }),
            None => Some(ids.last()),
        }
    }
}

/// The oldest message id of a chat, the anchor of the next older page.
pub fn oldest_message_id(ids: &[i64]) -> (r: Option<i64>)
    ensures
        r == min_id(ids@),
{
    let mut best: Option<i64> = None;
    let mut i: usize = 0;
    while i < ids.len()
        invariant
            i <= ids.len(),
            best == min_id(ids@.take(i as int)),
        decreases ids.len() - i,
    {
        assert(ids@.take(i + 1).drop_last() =~= ids@.take(i as int));
        best = match best {
            Some(m) => Some(if ids[i] < m { ids[i] } else { m }),
            None => Some(ids[i]),
        };
        i += 1;
    }
    assert(ids@.take(ids@.len() as int) =~= ids@);
    best
}

/// Whether a history page shows the chat has nothing older: the latest
/// page (`from == 0`) added nothing to an empty chat, or an older page
/// added nothing older than its anchor. `None` is a reply nobody asked for.
pub open spec fn history_exhausted_spec(from: Option<i64>, inserted: Seq<i64>, chat_empty: bool) -> bool {
    match from {
        None => false,
        Some(f) => if f == 0 {
            inserted.len() == 0 && chat_empty
        } else {
            !(exists|k: int| 0 <= k < inserted.len() && inserted[k] < f)
        },
    }
}

pub fn history_exhausted(from: Option<i64>, inserted: &[i64], chat_empty: bool) -> (r: bool)
    ensures
        r == history_exhausted_spec(from, inserted@, chat_empty),
{
    match from {
        None => false,
        Some(f) => {
            if f == 0 {
                return inserted.len() == 0 && chat_empty;
            }
            let mut i: usize = 0;
            while i < inserted.len()
                invariant
                    i <= inserted.len(),
                    from == Some(f),
                    f != 0,
                    forall|k: int| 0 <= k < i ==> inserted@[k] >= f,
                decreases inserted.len() - i,
            {
                if inserted[i] < f {
                    assert(inserted@[i as int] < f);
                    return false;
                }
                i += 1;
            }
            true
        },
    }
}

/// [`TextLink`] with its URL as a character sequence.
pub struct TextLinkView {
    pub start: usize,
    pub end: usize,
    pub url: Seq<char>,
}

impl View for TextLink {
    type V = TextLinkView;

    open spec fn view(&self) -> TextLinkView {
        TextLinkView { start: self.start, end: self.end, url: self.url@ }
    }
}

pub open spec fn links_view(v: Seq<TextLink>) -> Seq<TextLinkView> {
    v.map_values(|l: TextLink| l@)
}

pub(crate) fn copy_links(v: &Vec<TextLink>) -> (r: Vec<TextLink>)
    ensures
        links_view(r@) == links_view(v@),
{
    let mut r: Vec<TextLink> = Vec::new();
    let mut i: usize = 0;
    while i < v.len()
        invariant
            i <= v.len(),
            links_view(r@) == links_view(v@).take(i as int),
        decreases v.len() - i,
    {
        let ghost before = r@;
        r.push(TextLink { start: v[i].start, end: v[i].end, url: v[i].url.clone() });
        assert(links_view(r@) =~= links_view(before).push(v@[i as int]@));
        assert(links_view(v@).take(i + 1) =~= links_view(v@).take(i as int).push(v@[i as int]@));
        i += 1;
    }
    assert(links_view(v@).take(v.len() as int) =~= links_view(v@));
    r
}

/// A message as the session keeps it.
#[derive(Debug)]
pub struct StoredMessage {
    /// `sender_id.user_id` of a `messageSenderUser`.
    pub sender_id: Option<i64>,
    /// `sender_id.chat_id` of a `messageSenderChat`.
    pub sender_chat: Option<i64>,
    pub outgoing: bool,
    pub text: String,
    pub date: i64,
    pub kind: MessageKind,
    pub photo: Option<String>,
    pub photo_full: Option<String>,
    pub photo_full_width: i32,
    pub photo_full_height: i32,
    pub links: Vec<TextLink>,
}

/// [`StoredMessage`] with its strings as character sequences.
pub struct StoredView {
    pub sender_id: Option<i64>,
    pub sender_chat: Option<i64>,
    pub outgoing: bool,
    pub text: Seq<char>,
    pub date: i64,
    pub kind: MessageKind,
    pub photo: Option<Seq<char>>,
    pub photo_full: Option<Seq<char>>,
    pub photo_full_width: i32,
    pub photo_full_height: i32,
    pub links: Seq<TextLinkView>,
}

impl View for StoredMessage {
    type V = StoredView;

    open spec fn view(&self) -> StoredView {
        StoredView {
            sender_id: self.sender_id,
            sender_chat: self.sender_chat,
            outgoing: self.outgoing,
            text: self.text@,
            date: self.date,
            kind: self.kind,
            photo: opt_text(self.photo),
            photo_full: opt_text(self.photo_full),
            photo_full_width: self.photo_full_width,
            photo_full_height: self.photo_full_height,
            links: links_view(self.links@),
        }
    }
}

pub open spec fn bucket_view(v: Seq<(i64, StoredMessage)>) -> Seq<(i64, StoredView)> {
    v.map_values(|e: (i64, StoredMessage)| (e.0, e.1@))
}

/// [`TextMessage`] with its strings as character sequences.
pub struct TextMessageView {
    pub id: i64,
    pub chat_id: i64,
    pub sender: Seq<char>,
    pub text: Seq<char>,
    pub date: i64,
    pub kind: MessageKind,
    pub photo: Option<Seq<char>>,
    pub photo_full: Option<Seq<char>>,
    pub photo_full_width: i32,
    pub photo_full_height: i32,
    pub links: Seq<TextLinkView>,
    pub outgoing: bool,
    pub read: bool,
}

impl View for TextMessage {
    type V = TextMessageView;

    open spec fn view(&self) -> TextMessageView {
        TextMessageView {
            id: self.id,
            chat_id: self.chat_id,
            sender: self.sender@,
            text: self.text@,
            date: self.date,
            kind: self.kind,
            photo: opt_text(self.photo),
            photo_full: opt_text(self.photo_full),
            photo_full_width: self.photo_full_width,
            photo_full_height: self.photo_full_height,
            links: links_view(self.links@),
            outgoing: self.outgoing,
            read: self.read,
        }
    }
}

pub open spec fn messages_view(v: Seq<TextMessage>) -> Seq<TextMessageView> {
    v.map_values(|m: TextMessage| m@)
}

pub open spec fn users_view(v: Seq<(i64, String)>) -> Seq<(i64, Seq<char>)> {
    v.map_values(|e: (i64, String)| (e.0, e.1@))
}

pub open spec fn user_is(id: i64) -> spec_fn((i64, Seq<char>)) -> bool {
    |e: (i64, Seq<char>)| e.0 == id
}

/// The name the session knows for a user.
pub open spec fn user_name_of(users: Seq<(i64, Seq<char>)>, id: i64) -> Option<Seq<char>> {
    match first_where(users, user_is(id)) {
        Some(i) => Some(users[i].1),
        None => None,
    }
}

/// Who a message is from, as the transcript shows it.
pub open spec fn sender_label_spec(
    outgoing: bool,
    sender_id: Option<i64>,
    sender_chat: Option<i64>,
    my_user_id: Option<i64>,
    users: Seq<(i64, Seq<char>)>,
    chats: Seq<ChatItemView>,
) -> Seq<char> {
    if outgoing {
        "You"@
    } else {
        match sender_id {
            Some(u) => if my_user_id == Some(u) {
                "You"@
            } else {
                match user_name_of(users, u) {
                    Some(n) => n,
                    None => "User "@ + crate::textutil::int_text(u as int),
                }
            },
            None => match sender_chat {
                Some(c) => match chat_with_id(chats, c) {
                    Some(chat) => if is_pending_title(chat.title) {
                        "Chat "@ + crate::textutil::int_text(c as int)
                    } else {
                        chat.title
                    },
                    None => "Chat "@ + crate::textutil::int_text(c as int),
                },
                None => "Unknown"@,
            },
        }
    }
}

fn labelled(prefix: &str, n: i64) -> (r: String)
    ensures
        r@ == prefix@ + crate::textutil::int_text(n as int),
{
    let mut s = prefix.to_owned();
    crate::textutil::push_int(&mut s, n);
    s
}

fn user_name_in(users: &[(i64, String)], id: i64) -> (r: Option<String>)
    ensures
        opt_text(r) == user_name_of(users_view(users@), id),
{
    let ghost v = users_view(users@);
    let mut i: usize = 0;
    while i < users.len()
        invariant
            i <= users.len(),
            v == users_view(users@),
            forall|j: int| 0 <= j < i ==> !user_is(id)(#[trigger] v[j]),
        decreases users.len() - i,
    {
        if users[i].0 == id {
            proof {
                assert(user_is(id)(v[i as int]));
                lemma_first_where_found(v, user_is(id), i as int);
            }
            return Some(users[i].1.clone());
        }
        assert(!user_is(id)(v[i as int]));
        i += 1;
    }
    proof {
        lemma_first_where_none(v, user_is(id));
    }
    None
}

/// Who a message is from, as the transcript shows it.
pub fn sender_label(
    stored: &StoredMessage,
    my_user_id: Option<i64>,
    users: &[(i64, String)],
    chats: &[ChatItem],
) -> (r: String)
    ensures
        r@ == sender_label_spec(
            stored.outgoing,
            stored.sender_id,
            stored.sender_chat,
            my_user_id,
            users_view(users@),
            chats_view(chats@),
        ),
{
    if stored.outgoing {
        return "You".to_owned();
    }
    if let Some(user_id) = stored.sender_id {
        if my_user_id == Some(user_id) {
            return "You".to_owned();
        }
        if let Some(name) = user_name_in(users, user_id) {
            return name;
        }
        return labelled("User ", user_id);
    }
    if let Some(chat_id) = stored.sender_chat {
        if let Some(k) = chat_index(chats, chat_id) {
            if !title_pending(chats[k].title.as_str()) {
                return chats[k].title.clone();
            }
        }
        return labelled("Chat ", chat_id);
    }
    "Unknown".to_owned()
}

/// The transcript row of a stored message.
pub open spec fn message_row(
    chat_id: i64,
    id: i64,
    m: StoredView,
    read_cursor: i64,
    my_user_id: Option<i64>,
    users: Seq<(i64, Seq<char>)>,
    chats: Seq<ChatItemView>,
) -> TextMessageView {
    TextMessageView {
        id,
        chat_id,
        sender: sender_label_spec(m.outgoing, m.sender_id, m.sender_chat, my_user_id, users, chats),
        text: m.text,
        date: m.date,
        kind: m.kind,
        photo: m.photo,
        photo_full: m.photo_full,
        photo_full_width: m.photo_full_width,
        photo_full_height: m.photo_full_height,
        links: m.links,
        outgoing: m.outgoing,
        read: m.outgoing && read_cursor > 0 && id <= read_cursor,
    }
}

/// `a` is shown above `b`: older, or as old with a smaller id.
pub open spec fn shown_before() -> spec_fn(TextMessageView, TextMessageView) -> bool {
    |a: TextMessageView, b: TextMessageView| a.date < b.date || (a.date == b.date && a.id < b.id)
}

pub open spec fn rows_of(
    chat_id: i64,
    bucket: Seq<(i64, StoredView)>,
    read_cursor: i64,
    my_user_id: Option<i64>,
    users: Seq<(i64, Seq<char>)>,
    chats: Seq<ChatItemView>,
) -> Seq<TextMessageView> {
    bucket.map_values(|e: (i64, StoredView)| message_row(chat_id, e.0, e.1, read_cursor, my_user_id, users, chats))
}

/// The transcript of a chat: its messages oldest first, ties by id; an
/// outgoing message is read once its id is at or below the chat's read
/// cursor.
pub open spec fn conversation_spec(
    chat_id: i64,
    bucket: Seq<(i64, StoredView)>,
    read_cursor: i64,
    my_user_id: Option<i64>,
    users: Seq<(i64, Seq<char>)>,
    chats: Seq<ChatItemView>,
) -> Seq<TextMessageView> {
    crate::seqs::sort_by_insertion(rows_of(chat_id, bucket, read_cursor, my_user_id, users, chats), shown_before())
}

/// The transcript rows of one chat.
pub fn conversation_messages(
    chat_id: i64,
    bucket: &[(i64, StoredMessage)],
    read_cursor: i64,
    my_user_id: Option<i64>,
    users: &[(i64, String)],
    chats: &[ChatItem],
) -> (r: Vec<TextMessage>)
    ensures
        messages_view(r@) == conversation_spec(
            chat_id,
            bucket_view(bucket@),
            read_cursor,
            my_user_id,
            users_view(users@),
            chats_view(chats@),
        ),
{
    let ghost rows = rows_of(chat_id, bucket_view(bucket@), read_cursor, my_user_id, users_view(users@), chats_view(chats@));
    let mut out: Vec<TextMessage> = Vec::new();
    assert(messages_view(out@) =~= Seq::<TextMessageView>::empty());
    let mut i: usize = 0;
    while i < bucket.len()
        invariant
            i <= bucket.len(),
            rows == rows_of(chat_id, bucket_view(bucket@), read_cursor, my_user_id, users_view(users@), chats_view(chats@)),
            messages_view(out@) == crate::seqs::sort_by_insertion(rows.take(i as int), shown_before()),
        decreases bucket.len() - i,
    {
        assert(rows.take(i + 1).drop_last() =~= rows.take(i as int));
        let id = bucket[i].0;
        let m = &bucket[i].1;
        let row = TextMessage {
            id,
            chat_id,
            sender: sender_label(m, my_user_id, users, chats),
            text: m.text.clone(),
            date: m.date,
            kind: m.kind,
            photo: copy_opt(&m.photo),
            photo_full: copy_opt(&m.photo_full),
            photo_full_width: m.photo_full_width,
            photo_full_height: m.photo_full_height,
            links: copy_links(&m.links),
            outgoing: m.outgoing,
            read: m.outgoing && read_cursor > 0 && id <= read_cursor,
        };
        assert(row@ == rows[i as int]);
        let ghost s0 = messages_view(out@);
        let mut j: usize = 0;
        while j < out.len() && !(row.date < out[j].date || (row.date == out[j].date && row.id < out[j].id))
            invariant
                j <= out.len(),
                s0 == messages_view(out@),
                forall|k: int| 0 <= k < j ==> !shown_before()(row@, #[trigger] s0[k]),
            decreases out.len() - j,
        {
            j += 1;
        }
        proof {
            crate::seqs::lemma_insert_by_at(s0, row@, shown_before(), j as int);
        }
        let ghost rv = row@;
        out.insert(j, row);
        assert(messages_view(out@) =~= s0.insert(j as int, rv));
        i += 1;
    }
    assert(rows.take(rows.len() as int) =~= rows);
    out
}

/// The transcript is oldest first (ties by id), holds every stored message
/// once, and marks as read only outgoing messages.
pub proof fn law_conversation_oldest_first(
    chat_id: i64,
    bucket: Seq<(i64, StoredView)>,
    read_cursor: i64,
    my_user_id: Option<i64>,
    users: Seq<(i64, Seq<char>)>,
    chats: Seq<ChatItemView>,
)
    ensures
        ({
            let r = conversation_spec(chat_id, bucket, read_cursor, my_user_id, users, chats);
            &&& forall|i: int, j: int| 0 <= i < j < r.len() ==> (#[trigger] r[i]).date < (#[trigger] r[j]).date
                || (r[i].date == r[j].date && r[i].id <= r[j].id)
            &&& r.to_multiset() == rows_of(chat_id, bucket, read_cursor, my_user_id, users, chats).to_multiset()
            &&& forall|i: int| 0 <= i < r.len() ==> ((#[trigger] r[i]).read ==> r[i].outgoing)
        }),
{
    let rows = rows_of(chat_id, bucket, read_cursor, my_user_id, users, chats);
    crate::seqs::lemma_sort_by_insertion(rows, shown_before());
    let r = conversation_spec(chat_id, bucket, read_cursor, my_user_id, users, chats);
    assert forall|i: int, j: int| 0 <= i < j < r.len() implies (#[trigger] r[i]).date < (#[trigger] r[j]).date
        || (r[i].date == r[j].date && r[i].id <= r[j].id) by {
        assert(!shown_before()(r[j], r[i]));
    }
    assert forall|i: int| 0 <= i < r.len() implies ((#[trigger] r[i]).read ==> r[i].outgoing) by {
        broadcast use vstd::seq_lib::group_to_multiset_ensures;
        assert(r.to_multiset().count(r[i]) > 0);
        assert(rows.contains(r[i]));
        let k = choose|k: int| 0 <= k < rows.len() && rows[k] == r[i];
        assert(rows[k].read ==> rows[k].outgoing);
    }
}

/// The conversation header: the chat's title, or `Chat N`.
pub fn conversation_title(chat_id: i64, chats: &[ChatItem]) -> (r: String)
    ensures
        r@ == (match chat_with_id(chats_view(chats@), chat_id) {
            Some(c) => c.title,
            None => "Chat "@ + crate::textutil::int_text(chat_id as int),
        }),
{
    match chat_index(chats, chat_id) {
        Some(k) => chats[k].title.clone(),
        None => labelled("Chat ", chat_id),
    }
}

/// One `photoSize` of a photo: its `type` letter and its pixel size, as
/// TDLib sent them.
#[derive(Clone, Debug)]
pub struct PhotoSize {
    pub kind: String,
    pub width: Option<i64>,
    pub height: Option<i64>,
}

pub struct PhotoSizeView {
    pub kind: Seq<char>,
    pub width: Option<i64>,
    pub height: Option<i64>,
}

impl View for PhotoSize {
    type V = PhotoSizeView;

    open spec fn view(&self) -> PhotoSizeView {
        PhotoSizeView { kind: self.kind@, width: self.width, height: self.height }
    }
}

pub open spec fn sizes_view(v: Seq<PhotoSize>) -> Seq<PhotoSizeView> {
    v.map_values(|p: PhotoSize| p@)
}

/// The sizes worth choosing from, by position: all but the stripped `i`
/// thumbnail, unless that is all there is.
pub open spec fn candidates_spec(sizes: Seq<PhotoSizeView>) -> Seq<int> {
    let kept = Seq::new(sizes.len(), |i: int| i).filter(|i: int| sizes[i].kind != "i"@);
    if kept.len() == 0 { Seq::new(sizes.len(), |i: int| i) } else { kept }
}

/// Pixel area, from widths and heights clamped at zero, saturated.
pub open spec fn area_spec(s: PhotoSizeView) -> int {
    let w = match s.width { Some(x) => if x < 0 { 0 } else { x as int }, None => 0 };
    let h = match s.height { Some(x) => if x < 0 { 0 } else { x as int }, None => 0 };
    if w * h > i64::MAX { i64::MAX as int } else { w * h }
}

/// Sharpness of a size type when areas tie.
pub open spec fn rank_spec(kind: Seq<char>) -> int {
    if kind == "w"@ { 60 }
    else if kind == "y"@ { 50 }
    else if kind == "x"@ { 40 }
    else if kind == "m"@ { 30 }
    else if kind == "c"@ { 20 }
    else if kind == "b"@ { 15 }
    else if kind == "a"@ { 10 }
    else if kind == "s"@ { 5 }
    else if kind == "i"@ { 0 }
    else { 1 }
}

/// `b` is at least as large as `a`: by area, then by type rank.
pub open spec fn not_smaller(a: PhotoSizeView, b: PhotoSizeView) -> bool {
    area_spec(b) > area_spec(a) || (area_spec(b) == area_spec(a) && rank_spec(b.kind) >= rank_spec(a.kind))
}

/// The popup size: the largest candidate, the last of equals (as
/// `Iterator::max_by` picks).
pub open spec fn largest_of(sizes: Seq<PhotoSizeView>, cands: Seq<int>) -> Option<int>
    decreases cands.len(),
{
    if cands.len() == 0 {
        None
    } else {
        match largest_of(sizes, cands.drop_last()) {
            None => Some(cands.last()),
            Some(best) => if not_smaller(sizes[best], sizes[cands.last()]) { Some(cands.last()) } else { Some(best) },
        }
    }
}

/// The first candidate of this type.
pub open spec fn first_of_kind(sizes: Seq<PhotoSizeView>, cands: Seq<int>, kind: Seq<char>) -> Option<int>
    decreases cands.len(),
{
    if cands.len() == 0 {
        None
    } else if sizes[cands[0]].kind == kind {
        Some(cands[0])
    } else {
        first_of_kind(sizes, cands.drop_first(), kind)
    }
}

/// The bubble size: `m`, else `s`, `x`, `y`, `w`, else the first candidate.
pub open spec fn preview_spec(sizes: Seq<PhotoSizeView>) -> Option<int> {
    let c = candidates_spec(sizes);
    if c.len() == 0 {
        None
    } else {
        match first_of_kind(sizes, c, "m"@) {
            Some(i) => Some(i),
            None => match first_of_kind(sizes, c, "s"@) {
                Some(i) => Some(i),
                None => match first_of_kind(sizes, c, "x"@) {
                    Some(i) => Some(i),
                    None => match first_of_kind(sizes, c, "y"@) {
                        Some(i) => Some(i),
                        None => match first_of_kind(sizes, c, "w"@) {
                            Some(i) => Some(i),
                            None => Some(c[0]),
                        },
                    },
                },
            },
        }
    }
}

fn kind_is(s: &PhotoSize, k: &str) -> (r: bool)
    ensures
        r == (s@.kind == k@),
{
    crate::textutil::str_eq(s.kind.as_str(), k)
}

fn candidates(sizes: &[PhotoSize]) -> (r: Vec<usize>)
    ensures
        r@.map_values(|i: usize| i as int) == candidates_spec(sizes_view(sizes@)),
        forall|k: int| 0 <= k < r@.len() ==> r@[k] < sizes.len(),
{
    let ghost sv = sizes_view(sizes@);
    let ghost all = Seq::new(sv.len(), |i: int| i);
    let ghost keep = |i: int| sv[i].kind != "i"@;
    let mut kept: Vec<usize> = Vec::new();
    let mut i: usize = 0;
    proof {
        crate::seqs::lemma_filter_empty(all, keep);
    }
    while i < sizes.len()
        invariant
            i <= sizes.len(),
            sv == sizes_view(sizes@),
            all == Seq::new(sv.len(), |i: int| i),
            keep == (|i: int| sv[i].kind != "i"@),
            kept@.map_values(|i: usize| i as int) == all.take(i as int).filter(keep),
            forall|k: int| 0 <= k < kept@.len() ==> kept@[k] < sizes.len(),
        decreases sizes.len() - i,
    {
        proof {
            crate::seqs::lemma_filter_take_step(all, i as int, keep);
        }
        if !kind_is(&sizes[i], "i") {
            let ghost before = kept@;
            kept.push(i);
            assert(kept@.map_values(|i: usize| i as int) =~= before.map_values(|i: usize| i as int).push(i as int));
        }
        i += 1;
    }
    assert(all.take(all.len() as int) =~= all);
    if kept.len() == 0 {
        let mut every: Vec<usize> = Vec::new();
        let mut k: usize = 0;
        while k < sizes.len()
            invariant
                k <= sizes.len(),
                every@.map_values(|i: usize| i as int) == all.take(k as int),
                all == Seq::new(sv.len(), |i: int| i),
                sv.len() == sizes.len(),
                forall|j: int| 0 <= j < every@.len() ==> every@[j] < sizes.len(),
            decreases sizes.len() - k,
        {
            let ghost before = every@;
            every.push(k);
            assert(all[k as int] == k as int);
            assert(every@.map_values(|i: usize| i as int) =~= before.map_values(|i: usize| i as int).push(k as int));
            assert(all.take(k + 1) =~= all.take(k as int).push(k as int));
            k += 1;
        }
        assert(all.take(sizes.len() as int) =~= all);
        every
    } else {
        kept
    }
}

fn area(s: &PhotoSize) -> (r: i64)
    ensures
        r as int == area_spec(s@),
{
    let w: i64 = match s.width { Some(x) => if x < 0 { 0 } else { x }, None => 0 };
    let h: i64 = match s.height { Some(x) => if x < 0 { 0 } else { x }, None => 0 };
    assert(0 <= (w as int) * (h as int) <= 0x7fff_ffff_ffff_ffff * 0x7fff_ffff_ffff_ffff) by (nonlinear_arith)
        requires
            0 <= w <= 0x7fff_ffff_ffff_ffff,
            0 <= h <= 0x7fff_ffff_ffff_ffff,
    ;
    assert(0x7fff_ffff_ffff_ffff * 0x7fff_ffff_ffff_ffff < 0x7fff_ffff_ffff_ffff_ffff_ffff_ffff_ffff);
    let p = (w as i128) * (h as i128);
    if p > i64::MAX as i128 { i64::MAX } else { p as i64 }
}

fn rank(s: &PhotoSize) -> (r: i32)
    ensures
        r as int == rank_spec(s@.kind),
{
    if kind_is(s, "w") { 60 }
    else if kind_is(s, "y") { 50 }
    else if kind_is(s, "x") { 40 }
    else if kind_is(s, "m") { 30 }
    else if kind_is(s, "c") { 20 }
    else if kind_is(s, "b") { 15 }
    else if kind_is(s, "a") { 10 }
    else if kind_is(s, "s") { 5 }
    else if kind_is(s, "i") { 0 }
    else { 1 }
}

/// The size the photo popup downloads: the largest by pixel area, then by
/// type rank (`w` over `y` over `x`).
pub fn pick_full_size(sizes: &[PhotoSize]) -> (r: Option<usize>)
    ensures
        match r {
            Some(i) => largest_of(sizes_view(sizes@), candidates_spec(sizes_view(sizes@))) == Some(i as int),
            None => largest_of(sizes_view(sizes@), candidates_spec(sizes_view(sizes@))) is None,
        },
{
    let c = candidates(sizes);
    let ghost cv = c@.map_values(|i: usize| i as int);
    let ghost sv = sizes_view(sizes@);
    let mut best: Option<usize> = None;
    let mut k: usize = 0;
    while k < c.len()
        invariant
            k <= c.len(),
            cv == c@.map_values(|i: usize| i as int),
            sv == sizes_view(sizes@),
            forall|j: int| 0 <= j < c@.len() ==> c@[j] < sizes.len(),
            match best {
                Some(b) => largest_of(sv, cv.take(k as int)) == Some(b as int) && b < sizes.len(),
                None => largest_of(sv, cv.take(k as int)) is None,
            },
        decreases c.len() - k,
    {
        assert(cv.take(k + 1).drop_last() =~= cv.take(k as int));
        let i = c[k];
        best = match best {
            None => Some(i),
            Some(b) => {
                let ab = area(&sizes[b]);
                let ai = area(&sizes[i]);
                if ai > ab || (ai == ab && rank(&sizes[i]) >= rank(&sizes[b])) { Some(i) } else { Some(b) }
            },
        };
        k += 1;
    }
    assert(cv.take(cv.len() as int) =~= cv);
    best
}

fn first_kind(sizes: &[PhotoSize], c: &Vec<usize>, kind: &str) -> (r: Option<usize>)
    requires
        forall|j: int| 0 <= j < c@.len() ==> c@[j] < sizes.len(),
    ensures
        match r {
            Some(i) => first_of_kind(sizes_view(sizes@), c@.map_values(|i: usize| i as int), kind@) == Some(i as int),
            None => first_of_kind(sizes_view(sizes@), c@.map_values(|i: usize| i as int), kind@) is None,
        },
{
    let ghost sv = sizes_view(sizes@);
    let ghost cv = c@.map_values(|i: usize| i as int);
    let mut k: usize = 0;
    assert(cv.skip(0) =~= cv);
    while k < c.len()
        invariant
            k <= c.len(),
            sv == sizes_view(sizes@),
            cv == c@.map_values(|i: usize| i as int),
            forall|j: int| 0 <= j < c@.len() ==> c@[j] < sizes.len(),
            first_of_kind(sv, cv, kind@) == first_of_kind(sv, cv.skip(k as int), kind@),
        decreases c.len() - k,
    {
        assert(cv.skip(k as int).drop_first() =~= cv.skip(k + 1));
        if kind_is(&sizes[c[k]], kind) {
            return Some(c[k]);
        }
        k += 1;
    }
    None
}

/// The size the chat bubble shows: `m` (about 320px), else `s`, else the
/// larger types, else the first candidate.
pub fn pick_preview_size(sizes: &[PhotoSize]) -> (r: Option<usize>)
    ensures
        match r {
            Some(i) => preview_spec(sizes_view(sizes@)) == Some(i as int),
            None => preview_spec(sizes_view(sizes@)) is None,
        },
{
    let c = candidates(sizes);
    if c.len() == 0 {
        return None;
    }
    if let Some(i) = first_kind(sizes, &c, "m") {
        return Some(i);
    }
    if let Some(i) = first_kind(sizes, &c, "s") {
        return Some(i);
    }
    if let Some(i) = first_kind(sizes, &c, "x") {
        return Some(i);
    }
    if let Some(i) = first_kind(sizes, &c, "y") {
        return Some(i);
    }
    if let Some(i) = first_kind(sizes, &c, "w") {
        return Some(i);
    }
    Some(c[0])
}

/// Bytes of a character in UTF-8.
pub open spec fn utf8_width(c: char) -> int {
    let n = c as u32;
    if n < 0x80 { 1 } else if n < 0x800 { 2 } else if n < 0x10000 { 3 } else { 4 }
}

/// Code units of a character in UTF-16.
pub open spec fn utf16_width(c: char) -> int {
    if (c as u32) < 0x10000 { 1 } else { 2 }
}

/// Bytes of a text in UTF-8.
pub open spec fn byte_len(s: Seq<char>) -> int
    decreases s.len(),
{
    if s.len() == 0 { 0 } else { byte_len(s.drop_last()) + utf8_width(s.last()) }
}

pub(crate) fn utf8_width_of(c: char) -> (r: usize)
    ensures
        r as int == utf8_width(c),
{
    let n = c as u32;
    if n < 0x80 { 1 } else if n < 0x800 { 2 } else if n < 0x10000 { 3 } else { 4 }
}

fn utf16_width_of(c: char) -> (r: usize)
    ensures
        r as int == utf16_width(c),
{
    if (c as u32) < 0x10000 { 1 } else { 2 }
}

/// Walks the text from character `i`, which starts `units` UTF-16 units in:
/// the character where the span of `offset..end_unit` units starts, and the
/// one after the character that reaches its end.
pub open spec fn utf16_chars_from(
    s: Seq<char>,
    i: int,
    offset: int,
    end_unit: int,
    units: int,
    start: Option<int>,
) -> Option<(int, int)>
    decreases s.len() - i,
{
    if i < 0 || i >= s.len() {
        None
    } else {
        let st = if units == offset || (start is None && units > offset) { Some(i) } else { start };
        let next = units + utf16_width(s[i]);
        if next >= end_unit {
            match st {
                Some(b) => Some((b, i + 1)),
                None => None,
            }
        } else {
            utf16_chars_from(s, i + 1, offset, end_unit, next, st)
        }
    }
}

/// The characters covered by a TDLib entity, whose offset and length count
/// UTF-16 code units.
pub open spec fn utf16_char_span(s: Seq<char>, offset: int, length: int) -> Option<(int, int)> {
    if length == 0 { None } else { utf16_chars_from(s, 0, offset, offset + length, 0, None) }
}

/// The same span as UTF-8 byte offsets.
pub open spec fn utf16_span_spec(s: Seq<char>, offset: int, length: int) -> Option<(int, int)> {
    match utf16_char_span(s, offset, length) {
        Some((a, b)) => Some((byte_len(s.take(a)), byte_len(s.take(b)))),
        None => None,
    }
}

pub(crate) proof fn lemma_byte_len_push(s: Seq<char>, c: char)
    ensures
        byte_len(s.push(c)) == byte_len(s) + utf8_width(c),
{
    assert(s.push(c).drop_last() =~= s);
}

proof fn lemma_byte_len_bound(s: Seq<char>)
    ensures
        s.len() <= byte_len(s) <= 4 * s.len(),
    decreases s.len(),
{
    if s.len() > 0 {
        lemma_byte_len_bound(s.drop_last());
    }
}

fn utf16_chars(s: &[char], offset: usize, length: usize) -> (r: Option<(usize, usize)>)
    requires
        offset + length <= usize::MAX,
        s@.len() <= usize::MAX / 4,
    ensures
        match r {
            Some((a, b)) => utf16_char_span(s@, offset as int, length as int) == Some((a as int, b as int))
                && a < b <= s.len(),
            None => utf16_char_span(s@, offset as int, length as int) is None,
        },
{
    if length == 0 {
        return None;
    }
    let end_unit = offset + length;
    let mut units: usize = 0;
    let mut start: Option<usize> = None;
    let mut i: usize = 0;
    while i < s.len()
        invariant
            i <= s.len(),
            s@.len() <= usize::MAX / 4,
            end_unit == offset + length,
            units < end_unit,
            units <= 2 * i,
            match start {
                Some(b) => b < i && utf16_char_span(s@, offset as int, length as int) == utf16_chars_from(
                    s@, i as int, offset as int, end_unit as int, units as int, Some(b as int)),
                None => utf16_char_span(s@, offset as int, length as int) == utf16_chars_from(
                    s@, i as int, offset as int, end_unit as int, units as int, None),
            },
        decreases s.len() - i,
    {
        if units == offset || (start.is_none() && units > offset) {
            start = Some(i);
        }
        let next = units + utf16_width_of(s[i]);
        if next >= end_unit {
            return match start {
                Some(b) => Some((b, i + 1)),
                None => None,
            };
        }
        units = next;
        i += 1;
    }
    None
}

/// TDLib entity offsets are UTF-16 code units; the span as UTF-8 bytes.
pub fn utf16_span(text: &str, offset: usize, length: usize) -> (r: Option<(usize, usize)>)
    requires
        offset + length <= usize::MAX,
        text@.len() <= usize::MAX / 4,
    ensures
        match r {
            Some((a, b)) => utf16_span_spec(text@, offset as int, length as int) == Some((a as int, b as int)),
            None => utf16_span_spec(text@, offset as int, length as int) is None,
        },
{
    let s = chars_of(text);
    match utf16_chars(s.as_slice(), offset, length) {
        Some((a, b)) => Some((byte_offset(s.as_slice(), a), byte_offset(s.as_slice(), b))),
        None => None,
    }
}

/// An `http`/`https` URL with no whitespace and no `<` or `>`.
pub open spec fn link_url_ok(u: Seq<char>) -> bool {
    crate::format::is_http_url_spec(u) && forall|i: int| 0 <= i < u.len() ==> (#[trigger] u[i]) != '<' && u[i] != '>'
}

fn link_url_ok_chars(u: &[char]) -> (r: bool)
    ensures
        r == link_url_ok(u@),
{
    let st = string_of(u);
    if !crate::format::is_http_url(st.as_str()) {
        return false;
    }
    let mut i: usize = 0;
    while i < u.len()
        invariant
            i <= u.len(),
            forall|j: int| 0 <= j < i ==> (#[trigger] u@[j]) != '<' && u@[j] != '>',
        decreases u.len() - i,
    {
        if u[i] == '<' || u[i] == '>' {
            assert(!((u@[i as int]) != '<' && u@[i as int] != '>'));
            return false;
        }
        i += 1;
    }
    true
}

/// Ends a bare URL: whitespace, `<`, `>`, `"` or `'`.
pub open spec fn is_link_stop(c: char) -> bool {
    is_ws(c) || c == '<' || c == '>' || c == '"' || c == '\''
}

/// Punctuation dropped from the end of a bare URL.
pub open spec fn is_trailing_punct(c: char) -> bool {
    c == '.' || c == ',' || c == ';' || c == ':' || c == ')' || c == ']' || c == '!'
}

/// The first `http://` or `https://` at or after `base`.
pub open spec fn scheme_at(s: Seq<char>, base: int) -> Option<int> {
    let a = crate::textutil::first_occ(s, "http://"@, base);
    let b = crate::textutil::first_occ(s, "https://"@, base);
    match (a, b) {
        (Some(x), Some(y)) => Some(if x < y { x } else { y }),
        (Some(x), None) => Some(x),
        (None, Some(y)) => Some(y),
        (None, None) => None,
    }
}

/// The first stop character at or after `k`, or the end.
pub open spec fn stop_from(s: Seq<char>, k: int) -> int
    decreases s.len() - k,
{
    if k < 0 || k >= s.len() { s.len() as int } else if is_link_stop(s[k]) { k } else { stop_from(s, k + 1) }
}

/// `end` moved back over trailing punctuation, not past `start`.
pub open spec fn trim_trailing(s: Seq<char>, start: int, end: int) -> int
    decreases end - start,
{
    if end > start && 0 < end <= s.len() && is_trailing_punct(s[end - 1]) { trim_trailing(s, start, end - 1) } else { end }
}

/// Bare URLs in `s` from character `base` on, as character ranges.
pub open spec fn bare_links_from(s: Seq<char>, base: int) -> Seq<(int, int)>
    decreases s.len() - base,
{
    if base < 0 || base >= s.len() {
        Seq::empty()
    } else {
        match scheme_at(s, base) {
            None => Seq::empty(),
            Some(start) => {
                if start < base {
                    Seq::empty()
                } else {
                    let end = trim_trailing(s, start, stop_from(s, start));
                    let here = if end > start && link_url_ok(s.subrange(start, end)) {
                        seq![(start, end)]
                    } else {
                        Seq::empty()
                    };
                    let next = if end > start + 1 { end } else { start + 1 };
                    if next < s.len() { here + bare_links_from(s, next) } else { here }
                }
            },
        }
    }
}

/// A character range as a link with UTF-8 byte offsets.
pub open spec fn link_of(s: Seq<char>, r: (int, int)) -> TextLinkView {
    TextLinkView {
        start: byte_len(s.take(r.0)) as usize,
        end: byte_len(s.take(r.1)) as usize,
        url: s.subrange(r.0, r.1),
    }
}

/// Bare `http`/`https` URLs in a text, with trailing punctuation left out.
pub open spec fn plain_links_spec(s: Seq<char>) -> Seq<TextLinkView> {
    bare_links_from(s, 0).map_values(|r: (int, int)| link_of(s, r))
}

fn byte_offset(s: &[char], k: usize) -> (r: usize)
    requires
        k <= s.len(),
        s.len() <= usize::MAX / 4,
    ensures
        r as int == byte_len(s@.take(k as int)),
{
    let mut b: usize = 0;
    let mut i: usize = 0;
    while i < k
        invariant
            i <= k <= s.len(),
            s.len() <= usize::MAX / 4,
            b as int == byte_len(s@.take(i as int)),
        decreases k - i,
    {
        proof {
            lemma_byte_len_bound(s@.take(i as int));
            lemma_byte_len_push(s@.take(i as int), s@[i as int]);
            assert(s@.take(i + 1) =~= s@.take(i as int).push(s@[i as int]));
        }
        b = b + utf8_width_of(s[i]);
        i += 1;
    }
    b
}

/// Bare `http`/`https` URLs in a text. Offsets are UTF-8 byte indexes.
pub fn plain_http_links(text: &str) -> (r: Vec<TextLink>)
    requires
        text@.len() <= usize::MAX / 4,
    ensures
        links_view(r@) == plain_links_spec(text@),
{
    let s = chars_of(text);
    let http = chars_of("http://");
    let https = chars_of("https://");
    let mut out: Vec<TextLink> = Vec::new();
    let mut base: usize = 0;
    let ghost all = bare_links_from(s@, 0);
    assert(links_view(out@) =~= Seq::<TextLinkView>::empty());
    loop
        invariant
            base <= s.len() + 1,
            s@ == text@,
            s@.len() <= usize::MAX / 4,
            http@ == "http://"@,
            https@ == "https://"@,
            all == bare_links_from(s@, 0),
            links_view(out@) + bare_links_from(s@, base as int).map_values(|r: (int, int)| link_of(s@, r))
                == all.map_values(|r: (int, int)| link_of(s@, r)),
        decreases s.len() + 1 - base,
    {
        if base >= s.len() {
            assert(bare_links_from(s@, base as int) =~= Seq::<(int, int)>::empty());
            assert(links_view(out@) =~= all.map_values(|r: (int, int)| link_of(s@, r)));
            return out;
        }
        let a = crate::textutil::find_occ(s.as_slice(), http.as_slice(), base);
        let b = crate::textutil::find_occ(s.as_slice(), https.as_slice(), base);
        let start = match (a, b) {
            (Some(x), Some(y)) => if x < y { x } else { y },
            (Some(x), None) => x,
            (None, Some(y)) => y,
            (None, None) => {
                assert(bare_links_from(s@, base as int) =~= Seq::<(int, int)>::empty());
                assert(links_view(out@) =~= all.map_values(|r: (int, int)| link_of(s@, r)));
                return out;
            },
        };
        let mut stop = start;
        while stop < s.len() && !(crate::textutil::is_whitespace(s[stop]) || s[stop] == '<' || s[stop] == '>'
            || s[stop] == '"' || s[stop] == '\'')
            invariant
                start <= stop <= s.len(),
                stop_from(s@, start as int) == stop_from(s@, stop as int),
            decreases s.len() - stop,
        {
            stop += 1;
        }
        let mut end = stop;
        while end > start && (s[end - 1] == '.' || s[end - 1] == ',' || s[end - 1] == ';' || s[end - 1] == ':'
            || s[end - 1] == ')' || s[end - 1] == ']' || s[end - 1] == '!')
            invariant
                start <= end <= stop <= s.len(),
                trim_trailing(s@, start as int, stop as int) == trim_trailing(s@, start as int, end as int),
            decreases end - start,
        {
            end -= 1;
        }
        let ghost rest = bare_links_from(s@, base as int);
        let ghost here: Seq<(int, int)> = if end > start && link_url_ok(s@.subrange(start as int, end as int)) {
            seq![(start as int, end as int)]
        } else {
            Seq::empty()
        };
        let next = if end > start + 1 { end } else { start + 1 };
        proof {
            if next as int >= s@.len() {
                assert(bare_links_from(s@, next as int) =~= Seq::<(int, int)>::empty());
                assert(here + bare_links_from(s@, next as int) =~= here);
            }
        }
        assert(rest == here + bare_links_from(s@, next as int));
        if end > start {
            let url = crate::textutil::range_of(s.as_slice(), start, end);
            if link_url_ok_chars(url.as_slice()) {
                let link = TextLink {
                    start: byte_offset(s.as_slice(), start),
                    end: byte_offset(s.as_slice(), end),
                    url: string_of(url.as_slice()),
                };
                let ghost before = out@;
                out.push(link);
                assert(links_view(out@) =~= links_view(before).push(link_of(s@, (start as int, end as int))));
            }
        }
        proof {
            let f = |r: (int, int)| link_of(s@, r);
            assert((here + bare_links_from(s@, next as int)).map_values(f) =~= here.map_values(f)
                + bare_links_from(s@, next as int).map_values(f));
        }
        base = next;
    }
}

/// What a formatted-text entity marks, of the kinds that can be links.
#[derive(Clone, Debug)]
pub enum EntityKind {
    /// `textEntityTypeUrl`: the covered text is the URL.
    Url,
    /// `textEntityTypeTextUrl`: the URL is given.
    TextUrl(String),
    /// Any other entity type.
    Other,
}

/// A `textEntity`: offset and length in UTF-16 code units (missing ones
/// read as zero).
#[derive(Clone, Debug)]
pub struct TextEntity {
    pub offset: i64,
    pub length: i64,
    pub kind: EntityKind,
}

/// An entity offset or length as a count: negative ones are zero, and so
/// are ones that do not fit in `usize`.
pub open spec fn entity_count(v: i64) -> int {
    if v < 0 { 0 } else if v > usize::MAX { 0 } else { v as int }
}

/// The link an entity makes, if it is an `http`/`https` link over a
/// non-empty span.
pub open spec fn entity_link(s: Seq<char>, e: TextEntity) -> Option<TextLinkView> {
    let span = utf16_char_span(s, entity_count(e.offset), entity_count(e.length));
    match (span, e.kind) {
        (Some((a, b)), EntityKind::Url) => {
            let link = link_of(s, (a, b));
            if link.start < link.end && link_url_ok(link.url) { Some(link) } else { None }
        },
        (Some((a, b)), EntityKind::TextUrl(u)) => {
            let link = TextLinkView { url: u@, ..link_of(s, (a, b)) };
            if link.start < link.end && link_url_ok(link.url) { Some(link) } else { None }
        },
        _ => None,
    }
}

pub open spec fn entity_links(s: Seq<char>, entities: Seq<TextEntity>) -> Seq<TextLinkView>
    decreases entities.len(),
{
    if entities.len() == 0 {
        Seq::empty()
    } else {
        let rest = entity_links(s, entities.drop_last());
        match entity_link(s, entities.last()) {
            Some(l) => rest.push(l),
            None => rest,
        }
    }
}

pub open spec fn overlaps_any(links: Seq<TextLinkView>, l: TextLinkView) -> bool {
    exists|k: int| 0 <= k < links.len() && (#[trigger] links[k]).start < l.end && l.start < links[k].end
}

/// Bare links added after the entity links, skipping any that overlaps a
/// link already taken.
pub open spec fn add_bare(links: Seq<TextLinkView>, bare: Seq<TextLinkView>) -> Seq<TextLinkView>
    decreases bare.len(),
{
    if bare.len() == 0 {
        links
    } else {
        let acc = add_bare(links, bare.drop_last());
        if overlaps_any(acc, bare.last()) { acc } else { acc.push(bare.last()) }
    }
}

pub open spec fn link_before() -> spec_fn(TextLinkView, TextLinkView) -> bool {
    |a: TextLinkView, b: TextLinkView| a.start < b.start
}

/// The links of a message body: its URL entities, then the bare URLs that
/// no entity covers, ordered by where they start.
pub open spec fn message_links_spec(s: Seq<char>, entities: Seq<TextEntity>) -> Seq<TextLinkView> {
    crate::seqs::sort_by_insertion(add_bare(entity_links(s, entities), plain_links_spec(s)), link_before())
}

/// No entity span reaches past `usize`.
pub open spec fn entities_fit(entities: Seq<TextEntity>) -> bool {
    forall|k: int| 0 <= k < entities.len() ==> entity_count((#[trigger] entities[k]).offset)
        + entity_count(entities[k].length) <= usize::MAX
}

fn count_of(v: i64) -> (r: usize)
    ensures
        r as int == entity_count(v),
{
    if v < 0 {
        0
    } else if v as u64 > usize::MAX as u64 {
        0
    } else {
        v as usize
    }
}

fn overlapping(links: &Vec<TextLink>, l: &TextLink) -> (r: bool)
    ensures
        r == overlaps_any(links_view(links@), l@),
{
    let ghost v = links_view(links@);
    let mut k: usize = 0;
    while k < links.len()
        invariant
            k <= links.len(),
            v == links_view(links@),
            forall|j: int| 0 <= j < k ==> !((#[trigger] v[j]).start < l@.end && l@.start < v[j].end),
        decreases links.len() - k,
    {
        if links[k].start < l.end && l.start < links[k].end {
            assert(v[k as int].start < l@.end && l@.start < v[k as int].end);
            return true;
        }
        k += 1;
    }
    false
}

/// The clickable spans of a message body: `textEntityTypeUrl` and
/// `textEntityTypeTextUrl` entities, then bare URLs no entity covers,
/// ordered by start. Offsets are UTF-8 byte indexes into `text`.
pub fn links_in_formatted(text: &str, entities: &[TextEntity]) -> (r: Vec<TextLink>)
    requires
        text@.len() <= usize::MAX / 4,
        entities_fit(entities@),
    ensures
        links_view(r@) == message_links_spec(text@, entities@),
{
    let s = chars_of(text);
    let mut links: Vec<TextLink> = Vec::new();
    assert(links_view(links@) =~= Seq::<TextLinkView>::empty());
    let mut i: usize = 0;
    while i < entities.len()
        invariant
            i <= entities.len(),
            s@ == text@,
            s@.len() <= usize::MAX / 4,
            entities_fit(entities@),
            links_view(links@) == entity_links(s@, entities@.take(i as int)),
        decreases entities.len() - i,
    {
        assert(entities@.take(i + 1).drop_last() =~= entities@.take(i as int));
        let e = &entities[i];
        let o = count_of(e.offset);
        let l = count_of(e.length);
        assert(entities_fit(entities@) ==> entity_count(entities@[i as int].offset) + entity_count(entities@[i as int].length) <= usize::MAX);
        if let Some((a, b)) = utf16_chars(s.as_slice(), o, l) {
            let start = byte_offset(s.as_slice(), a);
            let end = byte_offset(s.as_slice(), b);
            let url = match &e.kind {
                EntityKind::Url => {
                    let u = crate::textutil::range_of(s.as_slice(), a, b);
                    Some(string_of(u.as_slice()))
                },
                EntityKind::TextUrl(u) => Some(u.clone()),
                EntityKind::Other => None,
            };
            if let Some(url) = url {
                let uc = chars_of(url.as_str());
                if start < end && link_url_ok_chars(uc.as_slice()) {
                    let ghost before = links@;
                    let link = TextLink { start, end, url };
                    links.push(link);
                    assert(links_view(links@) =~= links_view(before).push(link@));
                }
            }
        }
        i += 1;
    }
    assert(entities@.take(entities@.len() as int) =~= entities@);
    let bare = plain_http_links(text);
    let ghost bv = links_view(bare@);
    let ghost base = links_view(links@);
    let mut k: usize = 0;
    while k < bare.len()
        invariant
            k <= bare.len(),
            bv == links_view(bare@),
            links_view(links@) == add_bare(base, bv.take(k as int)),
        decreases bare.len() - k,
    {
        assert(bv.take(k + 1).drop_last() =~= bv.take(k as int));
        if !overlapping(&links, &bare[k]) {
            let ghost before = links@;
            let l = TextLink { start: bare[k].start, end: bare[k].end, url: bare[k].url.clone() };
            links.push(l);
            assert(links_view(links@) =~= links_view(before).push(bv[k as int]));
        }
        k += 1;
    }
    assert(bv.take(bv.len() as int) =~= bv);
    let ghost merged = links_view(links@);
    let mut sorted: Vec<TextLink> = Vec::new();
    assert(links_view(sorted@) =~= Seq::<TextLinkView>::empty());
    let mut m: usize = 0;
    while m < links.len()
        invariant
            m <= links.len(),
            merged == links_view(links@),
            links_view(sorted@) == crate::seqs::sort_by_insertion(merged.take(m as int), link_before()),
        decreases links.len() - m,
    {
        assert(merged.take(m + 1).drop_last() =~= merged.take(m as int));
        let x = TextLink { start: links[m].start, end: links[m].end, url: links[m].url.clone() };
        let ghost s0 = links_view(sorted@);
        let mut j: usize = 0;
        while j < sorted.len() && !(x.start < sorted[j].start)
            invariant
                j <= sorted.len(),
                s0 == links_view(sorted@),
                forall|q: int| 0 <= q < j ==> !link_before()(x@, #[trigger] s0[q]),
            decreases sorted.len() - j,
        {
            j += 1;
        }
        proof {
            crate::seqs::lemma_insert_by_at(s0, x@, link_before(), j as int);
        }
        let ghost xv = x@;
        sorted.insert(j, x);
        assert(links_view(sorted@) =~= s0.insert(j as int, xv));
        m += 1;
    }
    assert(merged.take(merged.len() as int) =~= merged);
    sorted
}

/// Message links come ordered by where they start.
pub proof fn law_message_links_ordered(s: Seq<char>, entities: Seq<TextEntity>)
    ensures
        ({
            let r = message_links_spec(s, entities);
            forall|i: int, j: int| 0 <= i < j < r.len() ==> (#[trigger] r[i]).start <= (#[trigger] r[j]).start
        }),
{
    let m = add_bare(entity_links(s, entities), plain_links_spec(s));
    crate::seqs::lemma_sort_by_insertion(m, link_before());
    let r = message_links_spec(s, entities);
    assert forall|i: int, j: int| 0 <= i < j < r.len() implies (#[trigger] r[i]).start <= (#[trigger] r[j]).start by {
        assert(!link_before()(r[j], r[i]));
    }
}

/// The local path of a downloaded file: set once the download completed,
/// trimmed, and only when not blank.
pub open spec fn completed_path_spec(completed: bool, path: Seq<char>) -> Option<Seq<char>> {
    if completed && trim_seq(path).len() > 0 { Some(trim_seq(path)) } else { None }
}

pub fn completed_local_path(is_downloading_completed: bool, path: &str) -> (r: Option<String>)
    ensures
        opt_text(r) == completed_path_spec(is_downloading_completed, path@),
{
    if !is_downloading_completed {
        return None;
    }
    let t = trim(path);
    if t.as_str().is_empty() { None } else { Some(t) }
}

/// A file id TDLib can be asked about: positive and an `i32`.
pub fn file_id(id: i64) -> (r: Option<i32>)
    ensures
        r == (if 0 < id <= i32::MAX { Some(id as i32) } else { None::<i32> }),
{
    if 0 < id && id <= i32::MAX as i64 { Some(id as i32) } else { None }
}

/// An unread count clamped to `0..=i32::MAX`; a missing one is zero.
pub fn unread_count(value: Option<i64>) -> (r: i32)
    ensures
        r == (match value {
            Some(v) => if v < 0 { 0 } else if v > i32::MAX { i32::MAX as int } else { v as int },
            None => 0,
        }),
{
    clamp_i32(match value {
        Some(v) => v,
        None => 0,
    })
}

/// The list a `chatPosition` is in.
#[derive(Clone, Copy, Debug, PartialEq, Eq, Structural)]
pub enum PositionList {
    Main,
    Folder(i32),
    Other,
}

/// A `chatPosition`: its list and its `order` (missing when TDLib sent none).
#[derive(Clone, Copy, Debug, PartialEq, Eq, Structural)]
pub struct ChatPosition {
    pub list: PositionList,
    pub order: Option<i64>,
}

pub open spec fn is_main_position() -> spec_fn(ChatPosition) -> bool {
    |p: ChatPosition| p.list == PositionList::Main
}

/// The order of the first main-list position, if there is one.
pub open spec fn main_list_order_spec(positions: Seq<ChatPosition>) -> Option<i64> {
    match first_where(positions, is_main_position()) {
        Some(i) => positions[i].order,
        None => None,
    }
}

pub fn main_list_order(positions: &[ChatPosition]) -> (r: Option<i64>)
    ensures
        r == main_list_order_spec(positions@),
{
    let mut i: usize = 0;
    while i < positions.len()
        invariant
            i <= positions.len(),
            forall|j: int| 0 <= j < i ==> !is_main_position()(#[trigger] positions@[j]),
        decreases positions.len() - i,
    {
        if positions[i].list == PositionList::Main {
            proof {
                lemma_first_where_found(positions@, is_main_position(), i as int);
            }
            return positions[i].order;
        }
        i += 1;
    }
    proof {
        lemma_first_where_none(positions@, is_main_position());
    }
    None
}

/// A folder's title: the first non-empty of `title`, `name.text.text`,
/// `name.text` and `name`, else `Folder N`.
pub open spec fn folder_title_spec(candidates: Seq<Option<Seq<char>>>, id: i64) -> Seq<char>
    decreases candidates.len(),
{
    if candidates.len() == 0 {
        "Folder "@ + crate::textutil::int_text(id as int)
    } else {
        match candidates[0] {
            Some(t) => if t.len() > 0 { t } else { folder_title_spec(candidates.drop_first(), id) },
            None => folder_title_spec(candidates.drop_first(), id),
        }
    }
}

pub fn folder_title(candidates: &[Option<String>], id: i64) -> (r: String)
    ensures
        r@ == folder_title_spec(candidates@.map_values(|o: Option<String>| opt_text(o)), id),
{
    let ghost cv = candidates@.map_values(|o: Option<String>| opt_text(o));
    let mut i: usize = 0;
    assert(cv.skip(0) =~= cv);
    while i < candidates.len()
        invariant
            i <= candidates.len(),
            cv == candidates@.map_values(|o: Option<String>| opt_text(o)),
            folder_title_spec(cv, id) == folder_title_spec(cv.skip(i as int), id),
        decreases candidates.len() - i,
    {
        assert(cv.skip(i as int).drop_first() =~= cv.skip(i + 1));
        assert(cv.skip(i as int)[0] == opt_text(candidates@[i as int]));
        if let Some(t) = &candidates[i] {
            if !t.as_str().is_empty() {
                return t.clone();
            }
        }
        i += 1;
    }
    assert(cv.skip(i as int) =~= Seq::<Option<Seq<char>>>::empty());
    labelled("Folder ", id)
}

} // verus!
