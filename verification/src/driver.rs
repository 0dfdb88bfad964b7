//! TDLib authorization and chat-list state machine for the headless spike.
//!
//! The receive loop hands each TDLib event to [`Driver::on_event`] and
//! performs the returned [`Effect`]: print its lines, send its requests,
//! exit with its code. This module never touches the network or the native
//! library, so every path of the session is decided here.

use vstd::prelude::*;
use crate::request::{ChatList, Request, RequestView, TdlibParameters};
use crate::textutil::{
    chars_of, contains_seq, int_text, lower_chars, lower_seq, matches_at, occurs_at, parse_i64,
    parse_i64_seq, push_char, push_decimal, push_int, starts_with_seq, str_eq, string_of,
    contains_chars, decimal, lower_char, trim, trim_seq,
};

verus! {

#[derive(Clone, Debug)]
pub struct SessionConfig {
    pub database_directory: String,
    pub files_directory: String,
    pub api_id: i32,
    pub api_hash: String,
    pub device_model: String,
    pub system_language_code: String,
    pub system_version: String,
    pub application_version: String,
    pub chat_limit: i32,
}

/// A startup setting the session cannot start with.
#[derive(Clone, Copy, Debug, PartialEq, Eq, Structural)]
pub enum SettingError {
    /// `api_id` is not positive.
    ApiId,
    /// `api_hash` is blank.
    ApiHash,
    /// The device model, language code or application version is blank.
    BlankField,
    /// The chat limit is outside `1..=100`.
    ChatLimit,
}

/// The session's startup settings, checked in order: the trimmed
/// `api_hash` when they are usable, else the first one that is not.
pub open spec fn settings_spec(
    api_id: i32,
    api_hash: Seq<char>,
    device_model: Seq<char>,
    language_code: Seq<char>,
    application_version: Seq<char>,
    chat_limit: i32,
) -> Result<Seq<char>, SettingError> {
    if api_id <= 0 {
        Err(SettingError::ApiId)
    } else if trim_seq(api_hash).len() == 0 {
        Err(SettingError::ApiHash)
    } else if trim_seq(device_model).len() == 0 || trim_seq(language_code).len() == 0 || trim_seq(
        application_version,
    ).len() == 0 {
        Err(SettingError::BlankField)
    } else if chat_limit < 1 || chat_limit > 100 {
        Err(SettingError::ChatLimit)
    } else {
        Ok(trim_seq(api_hash))
    }
}

/// Checks the startup settings; on success, the `api_hash` to use
/// (trimmed).
pub fn check_settings(
    api_id: i32,
    api_hash: &str,
    device_model: &str,
    language_code: &str,
    application_version: &str,
    chat_limit: i32,
) -> (r: Result<String, SettingError>)
    ensures
        match r {
            Ok(h) => settings_spec(api_id, api_hash@, device_model@, language_code@, application_version@, chat_limit)
                == Ok::<Seq<char>, SettingError>(h@),
            Err(e) => settings_spec(api_id, api_hash@, device_model@, language_code@, application_version@, chat_limit)
                == Err::<Seq<char>, SettingError>(e),
        },
{
    if api_id <= 0 {
        return Err(SettingError::ApiId);
    }
    let hash = trim(api_hash);
    if hash.as_str().is_empty() {
        return Err(SettingError::ApiHash);
    }
    if trim(device_model).as_str().is_empty() || trim(language_code).as_str().is_empty() || trim(
        application_version,
    ).as_str().is_empty() {
        return Err(SettingError::BlankField);
    }
    if chat_limit < 1 || chat_limit > 100 {
        return Err(SettingError::ChatLimit);
    }
    Ok(hash)
}

impl SettingError {
    pub open spec fn message_spec(self) -> Seq<char> {
        match self {
            SettingError::ApiId => "--api-id must be a positive integer"@,
            SettingError::ApiHash => "--api-hash / TDLIB_API_HASH is empty"@,
            SettingError::BlankField =>
                "--device-model, --system-language-code, and --application-version must be non-empty"@,
            SettingError::ChatLimit => "--chat-limit must be between 1 and 100"@,
        }
    }

    /// What the command line prints for the error.
    pub fn message(&self) -> (r: &'static str)
        ensures
            r@ == self.message_spec(),
    {
        match self {
            SettingError::ApiId => "--api-id must be a positive integer",
            SettingError::ApiHash => "--api-hash / TDLIB_API_HASH is empty",
            SettingError::BlankField =>
                "--device-model, --system-language-code, and --application-version must be non-empty",
            SettingError::ChatLimit => "--chat-limit must be between 1 and 100",
        }
    }
}

/// Where the session is: waiting for authorization, collecting chat
/// titles, closing, or closed.
#[derive(Clone, Copy, Debug, PartialEq, Eq)]
pub enum Phase {
    WaitAuth,
    Collecting,
    Closing,
    Finished,
}

#[derive(Clone, Copy, Debug, PartialEq, Eq)]
pub enum TimeoutKind {
    Auth,
    Chats,
}

/// One TDLib event, with the fields the driver reads. Fields TDLib left out
/// take the value the driver reads for a missing field: an empty string, a
/// zero code, `false`, or `None`.
#[derive(Clone, Debug)]
pub enum TdEvent {
    /// `updateAuthorizationState`: the state's `@type` (`unknown` when
    /// missing) and its `is_encrypted` flag.
    AuthorizationState { state: String, is_encrypted: bool },
    /// `error`.
    Error { code: i64, message: String, extra: String },
    /// `ok`, the reply to a request that returns nothing.
    Accepted { extra: String },
    /// `chats`: the integer entries of `chat_ids`.
    Chats { chat_ids: Vec<i64> },
    /// A `chat` object.
    Chat { id: Option<i64>, title: Option<String> },
    /// `updateNewChat`, with the `id` and `title` of its `chat`.
    NewChat { id: Option<i64>, title: Option<String> },
    /// `updateChatTitle`.
    ChatTitle { chat_id: Option<i64>, title: Option<String> },
    /// Any other `@type`.
    Other,
}

/// What the receive loop does after an event: print `lines`, send `send`,
/// then exit with `exit` when it is set.
#[derive(Debug)]
pub struct Effect {
    pub send: Vec<Request>,
    pub lines: Vec<String>,
    pub exit: Option<i32>,
}

/// [`Effect`] with strings as character sequences.
#[verifier::ext_equal]
pub struct EffectView {
    pub send: Seq<RequestView>,
    pub lines: Seq<Seq<char>>,
    pub exit: Option<i32>,
}

pub open spec fn lines_view(v: Seq<String>) -> Seq<Seq<char>> {
    v.map_values(|s: String| s@)
}

pub open spec fn requests_view(v: Seq<Request>) -> Seq<RequestView> {
    v.map_values(|r: Request| r@)
}

impl View for Effect {
    type V = EffectView;

    open spec fn view(&self) -> EffectView {
        EffectView { send: requests_view(self.send@), lines: lines_view(self.lines@), exit: self.exit }
    }
}

pub open spec fn no_effect() -> EffectView {
    EffectView { send: Seq::empty(), lines: Seq::empty(), exit: None }
}

pub open spec fn lines_effect(lines: Seq<Seq<char>>) -> EffectView {
    EffectView { send: Seq::empty(), lines, exit: None }
}

impl Effect {
    /// No lines, no requests, no exit.
    pub fn none() -> (e: Self)
        ensures
            e@ == no_effect(),
    {
        let e = Effect { send: Vec::new(), lines: Vec::new(), exit: None };
        assert(e@.send =~= Seq::<RequestView>::empty());
        assert(e@.lines =~= Seq::<Seq<char>>::empty());
        e
    }
}

/// The driver's state with strings as character sequences. `titles` is the
/// chat id to title table in insertion order.
#[verifier::ext_equal]
pub struct DriverModel {
    pub cfg: SessionConfig,
    pub phase: Phase,
    pub sent_parameters: bool,
    pub sent_encryption_check: bool,
    pub saw_ready: bool,
    pub saw_chats: bool,
    pub did_load: bool,
    pub get_chats_sent: int,
    pub pending_code: Option<i32>,
    pub last_auth: Seq<char>,
    pub last_error: Option<Seq<char>>,
    pub order: Seq<i64>,
    pub seen_order: Seq<i64>,
    pub titles: Seq<(i64, Seq<char>)>,
    pub waiting: Seq<i64>,
}

pub struct Driver {
    cfg: SessionConfig,
    phase: Phase,
    sent_parameters: bool,
    sent_encryption_check: bool,
    saw_ready: bool,
    saw_chats: bool,
    did_load: bool,
    get_chats_sent: u8,
    pending_code: Option<i32>,
    last_auth: String,
    last_error: Option<String>,
    order: Vec<i64>,
    seen_order: Vec<i64>,
    titles: Vec<(i64, String)>,
    waiting: Vec<i64>,
}

pub open spec fn titles_view(t: Seq<(i64, String)>) -> Seq<(i64, Seq<char>)> {
    t.map_values(|p: (i64, String)| (p.0, p.1@))
}

pub open spec fn opt_view(o: Option<String>) -> Option<Seq<char>> {
    match o {
        Some(s) => Some(s@),
        None => None,
    }
}

impl View for Driver {
    type V = DriverModel;

    closed spec fn view(&self) -> DriverModel {
        DriverModel {
            cfg: self.cfg,
            phase: self.phase,
            sent_parameters: self.sent_parameters,
            sent_encryption_check: self.sent_encryption_check,
            saw_ready: self.saw_ready,
            saw_chats: self.saw_chats,
            did_load: self.did_load,
            get_chats_sent: self.get_chats_sent as int,
            pending_code: self.pending_code,
            last_auth: self.last_auth@,
            last_error: opt_view(self.last_error),
            order: self.order@,
            seen_order: self.seen_order@,
            titles: titles_view(self.titles@),
            waiting: self.waiting@,
        }
    }
}

/// The title stored for `id`.
pub open spec fn title_of(t: Seq<(i64, Seq<char>)>, id: i64) -> Option<Seq<char>>
    decreases t.len(),
{
    if t.len() == 0 {
        None
    } else if t[0].0 == id {
        Some(t[0].1)
    } else {
        title_of(t.drop_first(), id)
    }
}

/// The table with `id` set to `title`: replaced in place, or appended.
pub open spec fn set_title(t: Seq<(i64, Seq<char>)>, id: i64, title: Seq<char>) -> Seq<(i64, Seq<char>)>
    decreases t.len(),
{
    if t.len() == 0 {
        seq![(id, title)]
    } else if t[0].0 == id {
        t.update(0, (id, title))
    } else {
        seq![t[0]] + set_title(t.drop_first(), id, title)
    }
}

pub open spec fn is_closing_phase(p: Phase) -> bool {
    p is Closing || p is Finished
}

pub open spec fn close_view() -> RequestView {
    RequestView::Close { extra: "close"@ }
}

/// `begin_close`: the first call moves to `Closing`, remembers the exit
/// code, and sends `close` (never `logOut`); later calls only print.
pub open spec fn begin_close_spec(s: DriverModel, code: i32, lines: Seq<Seq<char>>) -> (DriverModel, EffectView) {
    if is_closing_phase(s.phase) {
        (s, lines_effect(lines))
    } else {
        (
            DriverModel { phase: Phase::Closing, pending_code: Some(code), ..s },
            EffectView { send: seq![close_view()], lines: lines.push("closing"@), exit: None },
        )
    }
}


pub const LOCK_HINT: &'static str = "Another process has this database open, or the copy was taken while Mithka was still running. Quit Mithka completely, copy the directory again, and point --database at the copy. Never run two processes on one live td.binlog.";
pub const ENCRYPTION_HINT: &'static str = "database_encryption_key must stay empty for a Mithka database. A different key returns 401 and cannot open the existing session. This spike always sends an empty key; do not change it.";
pub const GENERATION_HINT: &'static str = "This libtdjson.so does not match the database generation. Use the same Mithka 1.8.67 patched build that wrote the session (the libtdjson.so from that app bundle, iebb/mithka-tdjson).";
pub const SESSION_HINT: &'static str = "Telegram rejected the copied session (logged out or revoked). This is separate from the local encryption key when the message does not mention encryption.";

pub const SENDING_PARAMETERS: &'static str = "auth: sending setTdlibParameters (empty database_encryption_key, use_test_dc=false, file database, chat info database, message database, secret chats on)";
pub const ENCRYPTED_NOTE: &'static str = "auth: TDLib reports the database is encrypted. An empty key will not open it.";
pub const INCOMPLETE_NOTE: &'static str = "authorization is incomplete. This spike does not ask for a phone number, code, or password. Point --database at a copy of a logged-in Mithka tdlib directory.";
pub const LOGGING_OUT_NOTE: &'static str = "TDLib is logging out. This spike never sends logOut. If another client revoked the session, this copy can no longer open it.";
pub const CLOSING_NOTE: &'static str = "auth: TDLib is closing";
pub const CLOSED_BEFORE_LIST: &'static str = "TDLib closed before the chat list was printed.";
pub const CLOSED_BEFORE_READY: &'static str = "TDLib closed before Ready.";
pub const NO_FURTHER_PAGES: &'static str = "loadChats: local chat list has no further pages";
pub const EMPTY_LIST_NOTE: &'static str = "getChats returned no chats; loading the local main list";
pub const NO_CHATS: &'static str = "chats: none in the local main list";
pub const TITLE_UNAVAILABLE: &'static str = "(title unavailable)";
pub const INTERRUPT_NOTE: &'static str = "interrupt: closing TDLib (close, not logOut)";
pub const NO_AUTH_YET: &'static str = "(no authorization update yet)";
pub const WAIT_ENDED: &'static str = "chat list wait ended; printing titles received so far";

pub open spec fn is_lock_spec(m: Seq<char>) -> bool {
    contains_seq(m, "can't lock"@) || contains_seq(m, "cannot lock"@) || contains_seq(m, "database is locked"@)
        || contains_seq(m, "resource busy"@) || contains_seq(m, "already opened"@)
        || contains_seq(m, "file is locked"@) || contains_seq(m, "unable to lock"@)
}

pub open spec fn is_generation_spec(m: Seq<char>) -> bool {
    contains_seq(m, "future tdlib"@) || contains_seq(m, "from a newer"@) || contains_seq(m, "from a future"@)
        || contains_seq(m, "incompatible database"@) || contains_seq(m, "unsupported database"@)
        || contains_seq(m, "wrong database version"@) || contains_seq(m, "database version"@)
        || contains_seq(m, "unknown database format"@) || contains_seq(m, "downgrade"@)
        || contains_seq(m, "generation"@)
}

pub open spec fn is_session_spec(m: Seq<char>) -> bool {
    contains_seq(m, "session revoked"@) || contains_seq(m, "session expired"@) || contains_seq(m, "logged out"@)
        || contains_seq(m, "auth_key_unregistered"@) || contains_seq(m, "unauthorized"@)
}

pub open spec fn is_encryption_spec(code: i64, m: Seq<char>, extra: Seq<char>) -> bool {
    contains_seq(m, "encryption key"@) || contains_seq(m, "wrong key"@) || (code == 401 && (extra
        == "setTdlibParameters"@ || extra == "checkDatabaseEncryptionKey"@))
}

/// The hint printed under a TDLib error, judged on the ASCII-lowercased
/// message: a lock, a database generation, a revoked session, or the
/// encryption key, in that order of precedence.
pub open spec fn explain_spec(code: i64, message: Seq<char>, extra: Seq<char>) -> Option<Seq<char>> {
    let m = lower_seq(message);
    if is_lock_spec(m) {
        Some(LOCK_HINT@)
    } else if is_generation_spec(m) {
        Some(GENERATION_HINT@)
    } else if is_session_spec(m) {
        Some(SESSION_HINT@)
    } else if is_encryption_spec(code, m, extra) {
        Some(ENCRYPTION_HINT@)
    } else {
        None
    }
}

fn has(m: &[char], p: &str) -> (r: bool)
    ensures
        r == contains_seq(m@, p@),
{
    let pc = chars_of(p);
    contains_chars(m, pc.as_slice())
}

/// A hint for a TDLib error this client knows how to explain.
pub fn explain_error(code: i64, message: &str, extra: &str) -> (r: Option<&'static str>)
    ensures
        match r {
            Some(h) => explain_spec(code, message@, extra@) == Some(h@),
            None => explain_spec(code, message@, extra@) is None,
        },
{
    let raw = chars_of(message);
    let m = lower_chars(raw.as_slice());
    let m = m.as_slice();
    let lock = has(m, "can't lock") || has(m, "cannot lock") || has(m, "database is locked") || has(m, "resource busy")
        || has(m, "already opened") || has(m, "file is locked") || has(m, "unable to lock");
    if lock {
        return Some(LOCK_HINT);
    }
    let generation = has(m, "future tdlib") || has(m, "from a newer") || has(m, "from a future")
        || has(m, "incompatible database") || has(m, "unsupported database")
        || has(m, "wrong database version") || has(m, "database version")
        || has(m, "unknown database format") || has(m, "downgrade") || has(m, "generation");
    if generation {
        return Some(GENERATION_HINT);
    }
    let session = has(m, "session revoked") || has(m, "session expired") || has(m, "logged out")
        || has(m, "auth_key_unregistered") || has(m, "unauthorized");
    if session {
        return Some(SESSION_HINT);
    }
    let encryption = has(m, "encryption key") || has(m, "wrong key") || (code == 401 && (str_eq(extra, "setTdlibParameters")
        || str_eq(extra, "checkDatabaseEncryptionKey")));
    if encryption {
        return Some(ENCRYPTION_HINT);
    }
    None
}


pub open spec fn error_line(code: i64, message: Seq<char>) -> Seq<char> {
    "TDLib error "@ + int_text(code as int) + ": "@ + message
}

pub open spec fn last_error_line(e: Seq<char>) -> Seq<char> {
    "last TDLib error: "@ + e
}

pub open spec fn auth_line(state: Seq<char>) -> Seq<char> {
    "auth: "@ + state
}

pub open spec fn bool_text(b: bool) -> Seq<char> {
    if b {
        "true"@
    } else {
        "false"@
    }
}

pub open spec fn legacy_line(encrypted: bool) -> Seq<char> {
    "auth: legacy authorizationStateWaitEncryptionKey (is_encrypted="@ + bool_text(encrypted)
        + "); sending checkDatabaseEncryptionKey with an empty key"@
}

pub open spec fn params_view(cfg: SessionConfig) -> RequestView {
    RequestView::SetTdlibParameters(
        crate::request::TdlibParametersView {
            use_test_dc: false,
            database_directory: cfg.database_directory@,
            files_directory: cfg.files_directory@,
            database_encryption_key: ""@,
            use_file_database: true,
            use_chat_info_database: true,
            use_message_database: true,
            use_secret_chats: true,
            api_id: cfg.api_id,
            api_hash: cfg.api_hash@,
            system_language_code: cfg.system_language_code@,
            device_model: cfg.device_model@,
            system_version: cfg.system_version@,
            application_version: cfg.application_version@,
            extra: "setTdlibParameters"@,
        },
    )
}

pub open spec fn check_key_view() -> RequestView {
    RequestView::CheckDatabaseEncryptionKey { encryption_key: ""@, extra: "checkDatabaseEncryptionKey"@ }
}

pub open spec fn get_chats_view(limit: i32) -> RequestView {
    RequestView::GetChats { chat_list: ChatList::Main, limit, extra: "getChats"@ }
}

pub open spec fn load_chats_view(limit: i32) -> RequestView {
    RequestView::LoadChats { chat_list: ChatList::Main, limit, extra: "loadChats"@ }
}

pub open spec fn get_chat_view(id: i64) -> RequestView {
    RequestView::GetChat { chat_id: id, extra: "getChat:"@ + int_text(id as int) }
}

pub open spec fn prepend(lines: Seq<Seq<char>>, e: EffectView) -> EffectView {
    EffectView { lines: lines + e.lines, ..e }
}

/// The configured chat limit, negative values read as zero.
pub open spec fn limit_of(s: DriverModel) -> int {
    if s.cfg.chat_limit < 0 {
        0
    } else {
        s.cfg.chat_limit as int
    }
}

pub open spec fn min(a: int, b: int) -> int {
    if a < b {
        a
    } else {
        b
    }
}

/// The chats to print: the `getChats` order, or else the first chats seen.
pub open spec fn chat_order(s: DriverModel) -> Seq<i64> {
    if s.order.len() > 0 {
        s.order
    } else {
        s.seen_order.take(min(limit_of(s), s.seen_order.len() as int))
    }
}

/// A title on one line: carriage returns and line feeds become spaces.
pub open spec fn one_line_spec(t: Seq<char>) -> Seq<char> {
    t.map_values(|c: char| if c == '\n' || c == '\r' { ' ' } else { c })
}

pub open spec fn title_or_unavailable(t: Seq<(i64, Seq<char>)>, id: i64) -> Seq<char> {
    match title_of(t, id) {
        Some(x) => x,
        None => TITLE_UNAVAILABLE@,
    }
}

/// `{:>2}. {title}`: the one-based number right-aligned to two columns.
pub open spec fn chat_line(n: nat, title: Seq<char>) -> Seq<char> {
    (if n < 10 { " "@ } else { ""@ }) + decimal(n) + ". "@ + one_line_spec(title)
}

pub open spec fn chat_lines_spec(s: DriverModel) -> Seq<Seq<char>> {
    let o = chat_order(s);
    if o.len() == 0 {
        seq![NO_CHATS@]
    } else {
        seq!["chats ("@ + decimal(o.len()) + "):"@] + Seq::new(
            o.len(),
            |i: int| chat_line((i + 1) as nat, title_or_unavailable(s.titles, o[i])),
        )
    }
}

pub open spec fn finish_success_spec(s: DriverModel) -> (DriverModel, EffectView) {
    if !(s.phase is Collecting) {
        (s, no_effect())
    } else {
        begin_close_spec(s, 0, chat_lines_spec(s))
    }
}

pub open spec fn maybe_finish_spec(s: DriverModel) -> (DriverModel, EffectView) {
    if !(s.phase is Collecting) || !s.saw_chats || s.order.len() == 0 || s.waiting.len() > 0 {
        (s, no_effect())
    } else {
        finish_success_spec(s)
    }
}

pub open spec fn maybe_finish_with_fetches_spec(s: DriverModel) -> (DriverModel, EffectView) {
    if s.waiting.len() == 0 {
        finish_success_spec(s)
    } else {
        (s, EffectView { send: get_chat_views(s.waiting), lines: Seq::empty(), exit: None })
    }
}

/// `getChat` for each id, in order.
pub open spec fn get_chat_views(ids: Seq<i64>) -> Seq<RequestView> {
    ids.map_values(|id: i64| get_chat_view(id))
}

pub open spec fn request_chats_spec(s: DriverModel) -> (DriverModel, EffectView) {
    if s.get_chats_sent >= 3 {
        finish_success_spec(s)
    } else {
        (
            DriverModel { get_chats_sent: s.get_chats_sent + 1, ..s },
            EffectView { send: seq![get_chats_view(s.cfg.chat_limit)], lines: Seq::empty(), exit: None },
        )
    }
}

pub open spec fn not_id(id: i64) -> spec_fn(i64) -> bool {
    |w: i64| w != id
}

pub open spec fn untitled(t: Seq<(i64, Seq<char>)>) -> spec_fn(i64) -> bool {
    |w: i64| title_of(t, w) is None
}

/// A title arrived for `id`: record it and stop waiting for it.
pub open spec fn remember_spec(s: DriverModel, id: i64, title: Seq<char>) -> DriverModel {
    DriverModel {
        seen_order: if title_of(s.titles, id) is None { s.seen_order.push(id) } else { s.seen_order },
        titles: set_title(s.titles, id, title),
        waiting: s.waiting.filter(not_id(id)),
        ..s
    }
}

/// `getChat` failed: keep any title already known, else record it as
/// unavailable, and stop waiting for it.
pub open spec fn give_up_title_spec(s: DriverModel, id: i64) -> DriverModel {
    DriverModel {
        titles: if title_of(s.titles, id) is None { set_title(s.titles, id, TITLE_UNAVAILABLE@) } else { s.titles },
        waiting: s.waiting.filter(not_id(id)),
        ..s
    }
}

pub open spec fn chat_event_spec(s: DriverModel, id: Option<i64>, title: Option<Seq<char>>) -> (DriverModel, EffectView) {
    let s1 = match (id, title) {
        (Some(i), Some(t)) => remember_spec(s, i, t),
        _ => s,
    };
    maybe_finish_spec(s1)
}

pub open spec fn is_incomplete_state(state: Seq<char>) -> bool {
    state == "authorizationStateWaitPhoneNumber"@ || state == "authorizationStateWaitCode"@
        || state == "authorizationStateWaitPassword"@ || state == "authorizationStateWaitRegistration"@
        || state == "authorizationStateWaitEmailAddress"@ || state == "authorizationStateWaitEmailCode"@
        || state == "authorizationStateWaitOtherDeviceConfirmation"@
        || state == "authorizationStateWaitPremiumPurchase"@
}

pub open spec fn optional_line(e: Option<Seq<char>>) -> Seq<Seq<char>> {
    match e {
        Some(x) => seq![last_error_line(x)],
        None => Seq::empty(),
    }
}

pub open spec fn on_auth_spec(s: DriverModel, state: Seq<char>, encrypted: bool) -> (DriverModel, EffectView) {
    let s1 = DriverModel { last_auth: state, ..s };
    let l0 = seq![auth_line(state)];
    if state == "authorizationStateWaitTdlibParameters"@ && s.phase is WaitAuth {
        if s.sent_parameters {
            (s1, lines_effect(l0))
        } else {
            (
                DriverModel { sent_parameters: true, ..s1 },
                EffectView { send: seq![params_view(s.cfg)], lines: l0.push(SENDING_PARAMETERS@), exit: None },
            )
        }
    } else if state == "authorizationStateWaitEncryptionKey"@ && s.phase is WaitAuth {
        let l = l0.push(legacy_line(encrypted)) + (if encrypted { seq![ENCRYPTED_NOTE@] } else { Seq::empty() });
        if s.sent_encryption_check {
            (s1, lines_effect(l))
        } else {
            (
                DriverModel { sent_encryption_check: true, ..s1 },
                EffectView { send: seq![check_key_view()], lines: l, exit: None },
            )
        }
    } else if state == "authorizationStateReady"@ && s.phase is WaitAuth {
        let (s3, e) = request_chats_spec(DriverModel { saw_ready: true, phase: Phase::Collecting, ..s1 });
        (s3, prepend(l0.push("Ready"@), e))
    } else if is_incomplete_state(state) {
        begin_close_spec(s1, 3, seq![auth_line(state), INCOMPLETE_NOTE@])
    } else if state == "authorizationStateLoggingOut"@ {
        begin_close_spec(s1, 1, seq![auth_line(state), LOGGING_OUT_NOTE@])
    } else if state == "authorizationStateClosing"@ {
        let s2 = if !(s.phase is Closing) {
            DriverModel {
                phase: Phase::Closing,
                pending_code: if s.pending_code is None { Some(1i32) } else { s.pending_code },
                ..s1
            }
        } else {
            s1
        };
        (s2, lines_effect(l0.push(CLOSING_NOTE@)))
    } else if state == "authorizationStateClosed"@ {
        let code = match s.pending_code {
            Some(c) => c,
            None => 1i32,
        };
        let notes = if s.pending_code is None {
            if s.saw_ready {
                seq![CLOSED_BEFORE_LIST@]
            } else {
                seq![CLOSED_BEFORE_READY@] + optional_line(s.last_error)
            }
        } else {
            Seq::empty()
        };
        (
            DriverModel { phase: Phase::Finished, pending_code: Some(code), ..s1 },
            EffectView { send: Seq::empty(), lines: (l0 + notes).push("closed"@), exit: Some(code) },
        )
    } else {
        (s1, lines_effect(l0))
    }
}

/// The chat id of a `getChat:<id>` tag.
pub open spec fn get_chat_extra_id(extra: Seq<char>) -> Option<i64> {
    if starts_with_seq(extra, "getChat:"@) {
        parse_i64_seq(extra.skip(8))
    } else {
        None
    }
}

pub open spec fn on_error_spec(s: DriverModel, code: i64, message: Seq<char>, extra: Seq<char>) -> (DriverModel, EffectView) {
    let rendered = error_line(code, message);
    let s1 = DriverModel { last_error: Some(rendered), ..s };
    let hint = explain_spec(code, message, extra);
    let lines = seq![rendered] + match hint {
        Some(h) => seq!["hint: "@ + h],
        None => Seq::empty(),
    };
    if starts_with_seq(extra, "getChat:"@) && hint is None && code != 401 && get_chat_extra_id(extra) is Some {
        let (s3, e) = maybe_finish_spec(give_up_title_spec(s1, get_chat_extra_id(extra)->0));
        (s3, prepend(lines, e))
    } else if extra == "loadChats"@ && code == 404 {
        let (s3, e) = request_chats_spec(s1);
        (s3, prepend(lines.push(NO_FURTHER_PAGES@), e))
    } else if extra == "setTdlibParameters"@ || extra == "checkDatabaseEncryptionKey"@ || hint is Some || code == 401 {
        begin_close_spec(s1, 1, lines)
    } else {
        (s1, lines_effect(lines))
    }
}

pub open spec fn on_ok_spec(s: DriverModel, extra: Seq<char>) -> (DriverModel, EffectView) {
    if extra == "setTdlibParameters"@ {
        (s, lines_effect(seq!["setTdlibParameters accepted"@]))
    } else if extra == "checkDatabaseEncryptionKey"@ {
        (s, lines_effect(seq!["checkDatabaseEncryptionKey accepted"@]))
    } else if extra == "loadChats"@ && s.phase is Collecting {
        let (s2, e) = request_chats_spec(s);
        (s2, prepend(seq!["loadChats accepted"@], e))
    } else {
        (s, no_effect())
    }
}

pub open spec fn on_chats_spec(s: DriverModel, ids: Seq<i64>) -> (DriverModel, EffectView) {
    if !(s.phase is Collecting) {
        (s, no_effect())
    } else {
        let n = min(limit_of(s), ids.len() as int);
        let s1 = DriverModel { order: ids.take(n), saw_chats: true, ..s };
        if n == 0 {
            if !s.did_load {
                (
                    DriverModel { did_load: true, ..s1 },
                    EffectView {
                        send: seq![load_chats_view(s.cfg.chat_limit)],
                        lines: seq![EMPTY_LIST_NOTE@],
                        exit: None,
                    },
                )
            } else {
                finish_success_spec(s1)
            }
        } else {
            maybe_finish_with_fetches_spec(DriverModel { waiting: ids.take(n).filter(untitled(s.titles)), ..s1 })
        }
    }
}

/// While closing, only authorization updates and errors matter; an error
/// that only reports the aborted requests (406, "aborted") stays silent.
pub open spec fn while_closing_spec(s: DriverModel, e: TdEvent) -> (DriverModel, EffectView) {
    match e {
        TdEvent::AuthorizationState { state, is_encrypted } => on_auth_spec(s, state@, is_encrypted),
        TdEvent::Error { code, message, extra } => if code == 406 || contains_seq(lower_seq(message@), "aborted"@) {
            (s, no_effect())
        } else {
            (s, lines_effect(seq![error_line(code, message@)]))
        },
        _ => (s, no_effect()),
    }
}

pub open spec fn opt_string_view(o: Option<String>) -> Option<Seq<char>> {
    match o {
        Some(t) => Some(t@),
        None => None,
    }
}

/// One step of the session: the state after `e` and what to do about it.
pub open spec fn step_spec(s: DriverModel, e: TdEvent) -> (DriverModel, EffectView) {
    if s.phase is Finished {
        (s, no_effect())
    } else if s.phase is Closing {
        while_closing_spec(s, e)
    } else {
        match e {
            TdEvent::AuthorizationState { state, is_encrypted } => on_auth_spec(s, state@, is_encrypted),
            TdEvent::Error { code, message, extra } => on_error_spec(s, code, message@, extra@),
            TdEvent::Accepted { extra } => on_ok_spec(s, extra@),
            TdEvent::Chats { chat_ids } => on_chats_spec(s, chat_ids@),
            TdEvent::Chat { id, title } => chat_event_spec(s, id, opt_string_view(title)),
            TdEvent::NewChat { id, title } => chat_event_spec(s, id, opt_string_view(title)),
            TdEvent::ChatTitle { chat_id, title } => chat_event_spec(s, chat_id, opt_string_view(title)),
            TdEvent::Other => (s, no_effect()),
        }
    }
}

pub open spec fn interrupt_spec(s: DriverModel) -> (DriverModel, EffectView) {
    if is_closing_phase(s.phase) {
        (s, no_effect())
    } else {
        begin_close_spec(s, 130, seq![INTERRUPT_NOTE@])
    }
}

pub open spec fn timeout_spec(s: DriverModel, kind: TimeoutKind) -> (DriverModel, EffectView) {
    if is_closing_phase(s.phase) {
        (s, no_effect())
    } else {
        match kind {
            TimeoutKind::Auth => {
                let state = if s.last_auth.len() == 0 { NO_AUTH_YET@ } else { s.last_auth };
                let lines = seq!["timed out waiting for authorizationStateReady (last state: "@ + state + ")"@]
                    + optional_line(s.last_error);
                begin_close_spec(s, 1, lines)
            },
            TimeoutKind::Chats => begin_close_spec(s, 0, seq![WAIT_ENDED@] + chat_lines_spec(s)),
        }
    }
}

pub open spec fn initial_model(cfg: SessionConfig) -> DriverModel {
    DriverModel {
        cfg,
        phase: Phase::WaitAuth,
        sent_parameters: false,
        sent_encryption_check: false,
        saw_ready: false,
        saw_chats: false,
        did_load: false,
        get_chats_sent: 0,
        pending_code: None,
        last_auth: Seq::empty(),
        last_error: None,
        order: Seq::empty(),
        seen_order: Seq::empty(),
        titles: Seq::empty(),
        waiting: Seq::empty(),
    }
}


proof fn lemma_filter_step(v: Seq<i64>, i: int, f: spec_fn(i64) -> bool)
    requires
        0 <= i < v.len(),
    ensures
        v.take(i + 1).filter(f) == (if f(v[i]) { v.take(i).filter(f).push(v[i]) } else { v.take(i).filter(f) }),
{
    reveal_with_fuel(Seq::filter, 1);
    assert(v.take(i + 1).drop_last() =~= v.take(i));
}

proof fn lemma_title_found(t: Seq<(i64, Seq<char>)>, id: i64, i: int, x: Seq<char>)
    requires
        0 <= i < t.len(),
        t[i].0 == id,
        forall|j: int| 0 <= j < i ==> #[trigger] t[j].0 != id,
    ensures
        title_of(t, id) == Some(t[i].1),
        set_title(t, id, x) == t.update(i, (id, x)),
    decreases i,
{
    if i > 0 {
        assert forall|j: int| 0 <= j < i - 1 implies #[trigger] t.drop_first()[j].0 != id by {
            assert(t.drop_first()[j] == t[j + 1]);
        }
        assert(t[0].0 != id);
        lemma_title_found(t.drop_first(), id, i - 1, x);
        assert(seq![t[0]] + t.drop_first().update(i - 1, (id, x)) =~= t.update(i, (id, x)));
    }
}

proof fn lemma_title_missing(t: Seq<(i64, Seq<char>)>, id: i64, x: Seq<char>)
    requires
        forall|j: int| 0 <= j < t.len() ==> #[trigger] t[j].0 != id,
    ensures
        title_of(t, id) is None,
        set_title(t, id, x) == t.push((id, x)),
    decreases t.len(),
{
    if t.len() > 0 {
        assert forall|j: int| 0 <= j < t.len() - 1 implies #[trigger] t.drop_first()[j].0 != id by {
            assert(t.drop_first()[j] == t[j + 1]);
        }
        assert(t[0].0 != id);
        lemma_title_missing(t.drop_first(), id, x);
        assert(seq![t[0]] + t.drop_first().push((id, x)) =~= t.push((id, x)));
    } else {
        assert(seq![(id, x)] =~= t.push((id, x)));
    }
}

/// Position of the first entry for `id`.
fn find_title(t: &Vec<(i64, String)>, id: i64) -> (r: Option<usize>)
    ensures
        match r {
            Some(i) => i < t.len() && t@[i as int].0 == id && title_of(titles_view(t@), id) == Some(
                t@[i as int].1@,
            ) && forall|x: Seq<char>| set_title(titles_view(t@), id, x) == #[trigger] titles_view(t@).update(
                i as int,
                (id, x),
            ),
            None => title_of(titles_view(t@), id) is None && forall|x: Seq<char>| #[trigger] set_title(
                titles_view(t@),
                id,
                x,
            ) == titles_view(t@).push((id, x)),
        },
{
    let ghost tv = titles_view(t@);
    let mut i: usize = 0;
    while i < t.len()
        invariant
            i <= t.len(),
            tv == titles_view(t@),
            forall|j: int| 0 <= j < i ==> #[trigger] t@[j].0 != id,
        decreases t.len() - i,
    {
        if t[i].0 == id {
            proof {
                assert forall|j: int| 0 <= j < i implies #[trigger] tv[j].0 != id by {
                    assert(tv[j].0 == t@[j].0);
                }
                assert forall|x: Seq<char>| set_title(tv, id, x) == #[trigger] tv.update(i as int, (id, x)) by {
                    lemma_title_found(tv, id, i as int, x);
                }
                lemma_title_found(tv, id, i as int, Seq::empty());
            }
            return Some(i);
        }
        i += 1;
    }
    proof {
        assert forall|j: int| 0 <= j < tv.len() implies #[trigger] tv[j].0 != id by {
            assert(tv[j].0 == t@[j].0);
        }
        assert forall|x: Seq<char>| #[trigger] set_title(tv, id, x) == tv.push((id, x)) by {
            lemma_title_missing(tv, id, x);
        }
        lemma_title_missing(tv, id, Seq::empty());
    }
    None
}

fn remove_id(v: &Vec<i64>, id: i64) -> (r: Vec<i64>)
    ensures
        r@ == v@.filter(not_id(id)),
{
    let mut r: Vec<i64> = Vec::new();
    let mut i: usize = 0;
    assert(v@.take(0).filter(not_id(id)) =~= Seq::<i64>::empty()) by {
        reveal_with_fuel(Seq::filter, 1);
    }
    while i < v.len()
        invariant
            i <= v.len(),
            r@ == v@.take(i as int).filter(not_id(id)),
        decreases v.len() - i,
    {
        proof {
            lemma_filter_step(v@, i as int, not_id(id));
        }
        if v[i] != id {
            r.push(v[i]);
        }
        i += 1;
    }
    assert(v@.take(v.len() as int) =~= v@);
    r
}

fn keep_untitled(v: &Vec<i64>, t: &Vec<(i64, String)>) -> (r: Vec<i64>)
    ensures
        r@ == v@.filter(untitled(titles_view(t@))),
{
    let ghost f = untitled(titles_view(t@));
    let mut r: Vec<i64> = Vec::new();
    let mut i: usize = 0;
    assert(v@.take(0).filter(f) =~= Seq::<i64>::empty()) by {
        reveal_with_fuel(Seq::filter, 1);
    }
    while i < v.len()
        invariant
            i <= v.len(),
            f == untitled(titles_view(t@)),
            r@ == v@.take(i as int).filter(f),
        decreases v.len() - i,
    {
        proof {
            lemma_filter_step(v@, i as int, f);
        }
        if find_title(t, v[i]).is_none() {
            r.push(v[i]);
        }
        i += 1;
    }
    assert(v@.take(v.len() as int) =~= v@);
    r
}

fn text(s: &str) -> (r: String)
    ensures
        r@ == s@,
{
    s.to_owned()
}

fn cat(a: &str, b: &str) -> (r: String)
    ensures
        r@ == a@ + b@,
{
    let mut r = a.to_owned();
    r.append(b);
    r
}

fn one_request(r: Request) -> (v: Vec<Request>)
    ensures
        requests_view(v@) == seq![r@],
{
    let mut v = Vec::new();
    v.push(r);
    assert(requests_view(v@) =~= seq![r@]);
    v
}

fn push_line(v: &mut Vec<String>, l: String)
    ensures
        lines_view(final(v)@) == lines_view(old(v)@).push(l@),
{
    v.push(l);
    assert(lines_view(v@) =~= lines_view(old(v)@).push(l@));
}

fn one_line(l: String) -> (v: Vec<String>)
    ensures
        lines_view(v@) == seq![l@],
{
    let mut v = Vec::new();
    push_line(&mut v, l);
    assert(seq![l@] =~= Seq::<Seq<char>>::empty().push(l@));
    assert(lines_view(Seq::<String>::empty()) =~= Seq::<Seq<char>>::empty());
    v
}

fn join_lines(a: Vec<String>, b: Vec<String>) -> (r: Vec<String>)
    ensures
        lines_view(r@) == lines_view(a@) + lines_view(b@),
{
    let ghost av = a@;
    let ghost bv = b@;
    let mut r = a;
    let mut b = b;
    r.append(&mut b);
    assert(lines_view(r@) =~= lines_view(av) + lines_view(bv));
    r
}

fn lines_only(lines: Vec<String>) -> (e: Effect)
    ensures
        e@ == lines_effect(lines_view(lines@)),
{
    let e = Effect { send: Vec::new(), lines, exit: None };
    assert(e@.send =~= Seq::<RequestView>::empty());
    e
}

fn prepend_lines(lines: Vec<String>, e: Effect) -> (r: Effect)
    ensures
        r@ == prepend(lines_view(lines@), e@),
{
    let Effect { send, lines: rest, exit } = e;
    Effect { send, lines: join_lines(lines, rest), exit }
}

/// `setTdlibParameters` for a copied Mithka database: the empty encryption
/// key, no test DC, and the file, chat info, message and secret chat
/// databases all on.
pub fn set_tdlib_parameters(cfg: &SessionConfig) -> (r: Request)
    ensures
        r@ == params_view(*cfg),
{
    Request::SetTdlibParameters(
        TdlibParameters {
            use_test_dc: false,
            database_directory: cfg.database_directory.clone(),
            files_directory: cfg.files_directory.clone(),
            database_encryption_key: text(""),
            use_file_database: true,
            use_chat_info_database: true,
            use_message_database: true,
            use_secret_chats: true,
            api_id: cfg.api_id,
            api_hash: cfg.api_hash.clone(),
            system_language_code: cfg.system_language_code.clone(),
            device_model: cfg.device_model.clone(),
            system_version: cfg.system_version.clone(),
            application_version: cfg.application_version.clone(),
            extra: text("setTdlibParameters"),
        },
    )
}

/// `setLogVerbosityLevel`.
pub fn set_verbosity_request(level: i32) -> (r: Request)
    ensures
        r@ == (RequestView::SetLogVerbosityLevel { new_verbosity_level: level }),
{
    Request::SetLogVerbosityLevel { new_verbosity_level: level }
}

/// `getOption("version")`.
pub fn version_request() -> (r: Request)
    ensures
        r@ == (RequestView::GetOption { name: "version"@, extra: None }),
{
    Request::GetOption { name: text("version"), extra: None }
}

/// `getOption("version")` tagged `bootstrap`: the first request, which
/// makes TDLib start the client.
pub fn bootstrap_request() -> (r: Request)
    ensures
        r@ == (RequestView::GetOption { name: "version"@, extra: Some("bootstrap"@) }),
{
    Request::GetOption { name: text("version"), extra: Some(text("bootstrap")) }
}

fn check_database_encryption_key() -> (r: Request)
    ensures
        r@ == check_key_view(),
{
    Request::CheckDatabaseEncryptionKey { encryption_key: text(""), extra: text("checkDatabaseEncryptionKey") }
}

fn get_chats(limit: i32) -> (r: Request)
    ensures
        r@ == get_chats_view(limit),
{
    Request::GetChats { chat_list: ChatList::Main, limit, extra: text("getChats") }
}

fn load_chats(limit: i32) -> (r: Request)
    ensures
        r@ == load_chats_view(limit),
{
    Request::LoadChats { chat_list: ChatList::Main, limit, extra: text("loadChats") }
}

fn get_chat(chat_id: i64) -> (r: Request)
    ensures
        r@ == get_chat_view(chat_id),
{
    let mut extra = text("getChat:");
    push_int(&mut extra, chat_id);
    Request::GetChat { chat_id, extra }
}

fn close_request() -> (r: Request)
    ensures
        r@ == close_view(),
{
    Request::Close { extra: text("close") }
}

/// A title with carriage returns and line feeds turned into spaces.
fn one_line_title(t: &str) -> (r: String)
    ensures
        r@ == one_line_spec(t@),
{
    let chars = chars_of(t);
    let mut out: Vec<char> = Vec::new();
    let mut i: usize = 0;
    while i < chars.len()
        invariant
            i <= chars.len(),
            chars@ == t@,
            out@ == one_line_spec(chars@.take(i as int)),
        decreases chars.len() - i,
    {
        let c = chars[i];
        out.push(if c == '\n' || c == '\r' { ' ' } else { c });
        i += 1;
        assert(one_line_spec(chars@.take(i as int)) =~= one_line_spec(chars@.take(i - 1)).push(
            if c == '\n' || c == '\r' { ' ' } else { c },
        ));
    }
    assert(chars@.take(chars.len() as int) =~= chars@);
    string_of(out.as_slice())
}

fn chat_line_text(n: u64, title: &str) -> (r: String)
    ensures
        r@ == chat_line(n as nat, title@),
{
    let mut r = if n < 10 { text(" ") } else { text("") };
    push_decimal(&mut r, n);
    r.append(". ");
    let t = one_line_title(title);
    r.append(t.as_str());
    r
}

fn opt_text(o: &Option<String>) -> (r: Option<String>)
    ensures
        opt_view(r) == opt_view(*o),
{
    match o {
        Some(t) => Some(t.clone()),
        None => None,
    }
}


fn is_collecting_phase(p: Phase) -> (r: bool)
    ensures
        r == p is Collecting,
{
    matches!(p, Phase::Collecting)
}

fn closing_phase(p: Phase) -> (r: bool)
    ensures
        r == is_closing_phase(p),
{
    matches!(p, Phase::Closing | Phase::Finished)
}

impl Driver {
    pub fn new(cfg: SessionConfig) -> (d: Self)
        ensures
            d@ == initial_model(cfg),
    {
        let d = Driver {
            cfg,
            phase: Phase::WaitAuth,
            sent_parameters: false,
            sent_encryption_check: false,
            saw_ready: false,
            saw_chats: false,
            did_load: false,
            get_chats_sent: 0,
            pending_code: None,
            last_auth: String::new(),
            last_error: None,
            order: Vec::new(),
            seen_order: Vec::new(),
            titles: Vec::new(),
            waiting: Vec::new(),
        };
        assert(titles_view(d.titles@) =~= Seq::<(i64, Seq<char>)>::empty());
        d
    }

    pub fn saw_ready(&self) -> (r: bool)
        ensures
            r == self@.saw_ready,
    {
        self.saw_ready
    }

    pub fn is_collecting(&self) -> (r: bool)
        ensures
            r == self@.phase is Collecting,
    {
        is_collecting_phase(self.phase)
    }

    pub fn is_closing(&self) -> (r: bool)
        ensures
            r == is_closing_phase(self@.phase),
    {
        closing_phase(self.phase)
    }

    /// The exit code decided so far; 1 when none was.
    pub fn pending_code(&self) -> (r: i32)
        ensures
            r == (match self@.pending_code {
                Some(c) => c,
                None => 1i32,
            }),
    {
        match self.pending_code {
            Some(c) => c,
            None => 1,
        }
    }

    fn begin_close(&mut self, code: i32, lines: Vec<String>) -> (e: Effect)
        ensures
            (final(self)@, e@) == begin_close_spec(old(self)@, code, lines_view(lines@)),
    {
        if closing_phase(self.phase) {
            return lines_only(lines);
        }
        self.phase = Phase::Closing;
        self.pending_code = Some(code);
        let mut lines = lines;
        push_line(&mut lines, text("closing"));
        Effect { send: one_request(close_request()), lines, exit: None }
    }

    fn chat_lines(&self) -> (r: Vec<String>)
        ensures
            lines_view(r@) == chat_lines_spec(self@),
    {
        let ghost m = self@;
        let order: Vec<i64> = if self.order.len() > 0 {
            self.order.clone()
        } else {
            let limit: usize = if self.cfg.chat_limit < 0 { 0 } else { self.cfg.chat_limit as usize };
            let n = if limit < self.seen_order.len() { limit } else { self.seen_order.len() };
            let mut o: Vec<i64> = Vec::new();
            let mut i: usize = 0;
            while i < n
                invariant
                    n <= self.seen_order.len(),
                    i <= n,
                    o@ == self.seen_order@.take(i as int),
                decreases n - i,
            {
                o.push(self.seen_order[i]);
                i += 1;
                assert(o@ =~= self.seen_order@.take(i as int));
            }
            o
        };
        assert(order@ == chat_order(m));
        if order.len() == 0 {
            return one_line(text(NO_CHATS));
        }
        let mut head = text("chats (");
        push_decimal(&mut head, order.len() as u64);
        head.append("):");
        let mut lines = one_line(head);
        let ghost first = lines_view(lines@);
        let mut i: usize = 0;
        while i < order.len()
            invariant
                i <= order.len(),
                order@ == chat_order(m),
                m == self@,
                first.len() == 1,
                lines_view(lines@) == first + Seq::new(
                    i as nat,
                    |k: int| chat_line((k + 1) as nat, title_or_unavailable(m.titles, order@[k])),
                ),
            decreases order.len() - i,
        {
            let id = order[i];
            let line = match find_title(&self.titles, id) {
                Some(k) => chat_line_text((i + 1) as u64, self.titles[k].1.as_str()),
                None => chat_line_text((i + 1) as u64, TITLE_UNAVAILABLE),
            };
            push_line(&mut lines, line);
            i += 1;
            assert(lines_view(lines@) =~= first + Seq::new(
                i as nat,
                |k: int| chat_line((k + 1) as nat, title_or_unavailable(m.titles, order@[k])),
            ));
        }
        lines
    }

    fn finish_success(&mut self) -> (e: Effect)
        ensures
            (final(self)@, e@) == finish_success_spec(old(self)@),
    {
        if !is_collecting_phase(self.phase) {
            return Effect::none();
        }
        let lines = self.chat_lines();
        self.begin_close(0, lines)
    }

    fn maybe_finish(&mut self) -> (e: Effect)
        ensures
            (final(self)@, e@) == maybe_finish_spec(old(self)@),
    {
        if !is_collecting_phase(self.phase) || !self.saw_chats || self.order.len() == 0 || self.waiting.len() > 0 {
            return Effect::none();
        }
        self.finish_success()
    }

    fn maybe_finish_with_fetches(&mut self) -> (e: Effect)
        ensures
            (final(self)@, e@) == maybe_finish_with_fetches_spec(old(self)@),
    {
        if self.waiting.len() == 0 {
            return self.finish_success();
        }
        let mut send: Vec<Request> = Vec::new();
        let mut i: usize = 0;
        while i < self.waiting.len()
            invariant
                i <= self.waiting.len(),
                requests_view(send@) == get_chat_views(self.waiting@.take(i as int)),
            decreases self.waiting.len() - i,
        {
            let r = get_chat(self.waiting[i]);
            let ghost before = send@;
            send.push(r);
            assert(self.waiting@.take(i + 1) =~= self.waiting@.take(i as int).push(self.waiting@[i as int]));
            assert(requests_view(send@) =~= requests_view(before).push(r@));
            assert(get_chat_views(self.waiting@.take(i + 1)) =~= get_chat_views(self.waiting@.take(i as int)).push(
                get_chat_view(self.waiting@[i as int]),
            ));
            i += 1;
        }
        assert(self.waiting@.take(self.waiting.len() as int) =~= self.waiting@);
        Effect { send, lines: Vec::new(), exit: None }
    }

    fn request_chats(&mut self) -> (e: Effect)
        ensures
            (final(self)@, e@) == request_chats_spec(old(self)@),
    {
        if self.get_chats_sent >= 3 {
            return self.finish_success();
        }
        self.get_chats_sent = self.get_chats_sent + 1;
        Effect { send: one_request(get_chats(self.cfg.chat_limit)), lines: Vec::new(), exit: None }
    }

    fn remember(&mut self, id: i64, title: String)
        ensures
            final(self)@ == remember_spec(old(self)@, id, title@),
    {
        let ghost t0 = titles_view(self.titles@);
        match find_title(&self.titles, id) {
            Some(i) => {
                self.titles.set(i, (id, title));
                assert(titles_view(self.titles@) =~= t0.update(i as int, (id, title@)));
            },
            None => {
                self.seen_order.push(id);
                self.titles.push((id, title));
                assert(titles_view(self.titles@) =~= t0.push((id, title@)));
            },
        }
        self.waiting = remove_id(&self.waiting, id);
    }

    fn give_up_title(&mut self, id: i64)
        ensures
            final(self)@ == give_up_title_spec(old(self)@, id),
    {
        let ghost t0 = titles_view(self.titles@);
        if find_title(&self.titles, id).is_none() {
            self.titles.push((id, text(TITLE_UNAVAILABLE)));
            assert(titles_view(self.titles@) =~= t0.push((id, TITLE_UNAVAILABLE@)));
        }
        self.waiting = remove_id(&self.waiting, id);
    }

    fn on_chat_event(&mut self, id: &Option<i64>, title: &Option<String>) -> (e: Effect)
        ensures
            (final(self)@, e@) == chat_event_spec(old(self)@, *id, opt_string_view(*title)),
    {
        match (id, title) {
            (Some(i), Some(t)) => self.remember(*i, t.clone()),
            _ => {},
        }
        self.maybe_finish()
    }

    fn on_auth(&mut self, state: &str, encrypted: bool) -> (e: Effect)
        ensures
            (final(self)@, e@) == on_auth_spec(old(self)@, state@, encrypted),
    {
        let ghost s0 = self@;
        let wait_auth = matches!(self.phase, Phase::WaitAuth);
        self.last_auth = text(state);
        let l0 = one_line(cat("auth: ", state));
        if str_eq(state, "authorizationStateWaitTdlibParameters") && wait_auth {
            if self.sent_parameters {
                return lines_only(l0);
            }
            self.sent_parameters = true;
            let mut lines = l0;
            push_line(&mut lines, text(SENDING_PARAMETERS));
            return Effect { send: one_request(set_tdlib_parameters(&self.cfg)), lines, exit: None };
        }
        if str_eq(state, "authorizationStateWaitEncryptionKey") && wait_auth {
            let mut lines = l0;
            let mut legacy = text("auth: legacy authorizationStateWaitEncryptionKey (is_encrypted=");
            legacy.append(if encrypted { "true" } else { "false" });
            legacy.append("); sending checkDatabaseEncryptionKey with an empty key");
            push_line(&mut lines, legacy);
            let ghost before = lines_view(lines@);
            if encrypted {
                push_line(&mut lines, text(ENCRYPTED_NOTE));
                assert(lines_view(lines@) =~= before + seq![ENCRYPTED_NOTE@]);
            } else {
                assert(lines_view(lines@) =~= before + Seq::<Seq<char>>::empty());
            }
            if self.sent_encryption_check {
                return lines_only(lines);
            }
            self.sent_encryption_check = true;
            return Effect { send: one_request(check_database_encryption_key()), lines, exit: None };
        }
        if str_eq(state, "authorizationStateReady") && wait_auth {
            self.saw_ready = true;
            self.phase = Phase::Collecting;
            let mut lines = l0;
            push_line(&mut lines, text("Ready"));
            let e = self.request_chats();
            return prepend_lines(lines, e);
        }
        let incomplete = str_eq(state, "authorizationStateWaitPhoneNumber") || str_eq(
            state,
            "authorizationStateWaitCode",
        ) || str_eq(state, "authorizationStateWaitPassword") || str_eq(state, "authorizationStateWaitRegistration")
            || str_eq(state, "authorizationStateWaitEmailAddress") || str_eq(state, "authorizationStateWaitEmailCode")
            || str_eq(state, "authorizationStateWaitOtherDeviceConfirmation") || str_eq(
            state,
            "authorizationStateWaitPremiumPurchase",
        );
        if incomplete {
            let mut lines = one_line(cat("auth: ", state));
            push_line(&mut lines, text(INCOMPLETE_NOTE));
            assert(lines_view(lines@) =~= seq![auth_line(state@), INCOMPLETE_NOTE@]);
            return self.begin_close(3, lines);
        }
        if str_eq(state, "authorizationStateLoggingOut") {
            let mut lines = one_line(cat("auth: ", state));
            push_line(&mut lines, text(LOGGING_OUT_NOTE));
            assert(lines_view(lines@) =~= seq![auth_line(state@), LOGGING_OUT_NOTE@]);
            return self.begin_close(1, lines);
        }
        if str_eq(state, "authorizationStateClosing") {
            let mut lines = l0;
            push_line(&mut lines, text(CLOSING_NOTE));
            if !matches!(self.phase, Phase::Closing) {
                self.phase = Phase::Closing;
                if self.pending_code.is_none() {
                    self.pending_code = Some(1);
                }
            }
            return lines_only(lines);
        }
        if str_eq(state, "authorizationStateClosed") {
            let code = match self.pending_code {
                Some(c) => c,
                None => 1,
            };
            let mut lines = l0;
            let ghost before = lines_view(lines@);
            if self.pending_code.is_none() {
                if self.saw_ready {
                    push_line(&mut lines, text(CLOSED_BEFORE_LIST));
                    assert(lines_view(lines@) =~= before + seq![CLOSED_BEFORE_LIST@]);
                } else {
                    push_line(&mut lines, text(CLOSED_BEFORE_READY));
                    match &self.last_error {
                        Some(err) => {
                            push_line(&mut lines, cat("last TDLib error: ", err.as_str()));
                            assert(lines_view(lines@) =~= before + (seq![CLOSED_BEFORE_READY@] + optional_line(
                                s0.last_error,
                            )));
                        },
                        None => {
                            assert(lines_view(lines@) =~= before + (seq![CLOSED_BEFORE_READY@] + optional_line(
                                s0.last_error,
                            )));
                        },
                    }
                }
            } else {
                assert(lines_view(lines@) =~= before + Seq::<Seq<char>>::empty());
            }
            self.phase = Phase::Finished;
            self.pending_code = Some(code);
            push_line(&mut lines, text("closed"));
            let send: Vec<Request> = Vec::new();
            assert(requests_view(send@) =~= Seq::<RequestView>::empty());
            return Effect { send, lines, exit: Some(code) };
        }
        lines_only(l0)
    }

    fn on_error(&mut self, code: i64, message: &str, extra: &str) -> (e: Effect)
        ensures
            (final(self)@, e@) == on_error_spec(old(self)@, code, message@, extra@),
    {
        let mut rendered = text("TDLib error ");
        push_int(&mut rendered, code);
        rendered.append(": ");
        rendered.append(message);
        self.last_error = Some(rendered.clone());
        let mut lines = one_line(rendered);
        let hint = explain_error(code, message, extra);
        let ghost first = lines_view(lines@);
        match hint {
            Some(h) => {
                push_line(&mut lines, cat("hint: ", h));
                assert(lines_view(lines@) =~= first + seq!["hint: "@ + h@]);
            },
            None => {
                assert(lines_view(lines@) =~= first + Seq::<Seq<char>>::empty());
            },
        }
        let extra_chars = chars_of(extra);
        let tag = chars_of("getChat:");
        let is_get_chat = matches_at(extra_chars.as_slice(), tag.as_slice(), 0);
        proof {
            reveal_strlit("getChat:");
            assert(tag@.len() == 8);
        }
        if is_get_chat && hint.is_none() && code != 401 {
            let mut rest: Vec<char> = Vec::new();
            assert(rest@ =~= extra_chars@.subrange(8, 8));
            let mut k: usize = 8;
            while k < extra_chars.len()
                invariant
                    8 <= k <= extra_chars.len(),
                    rest@ == extra_chars@.subrange(8, k as int),
                decreases extra_chars.len() - k,
            {
                rest.push(extra_chars[k]);
                k += 1;
            }
            assert(rest@ =~= extra@.skip(8));
            match parse_i64(rest.as_slice()) {
                Some(id) => {
                    self.give_up_title(id);
                    let e = self.maybe_finish();
                    return prepend_lines(lines, e);
                },
                None => {},
            }
        }
        if str_eq(extra, "loadChats") && code == 404 {
            push_line(&mut lines, text(NO_FURTHER_PAGES));
            let e = self.request_chats();
            return prepend_lines(lines, e);
        }
        let fatal = str_eq(extra, "setTdlibParameters") || str_eq(extra, "checkDatabaseEncryptionKey")
            || hint.is_some() || code == 401;
        if fatal {
            return self.begin_close(1, lines);
        }
        lines_only(lines)
    }

    fn on_ok(&mut self, extra: &str) -> (e: Effect)
        ensures
            (final(self)@, e@) == on_ok_spec(old(self)@, extra@),
    {
        if str_eq(extra, "setTdlibParameters") {
            return lines_only(one_line(text("setTdlibParameters accepted")));
        }
        if str_eq(extra, "checkDatabaseEncryptionKey") {
            return lines_only(one_line(text("checkDatabaseEncryptionKey accepted")));
        }
        if str_eq(extra, "loadChats") && is_collecting_phase(self.phase) {
            let e = self.request_chats();
            return prepend_lines(one_line(text("loadChats accepted")), e);
        }
        Effect::none()
    }

    fn on_chats(&mut self, chat_ids: &Vec<i64>) -> (e: Effect)
        ensures
            (final(self)@, e@) == on_chats_spec(old(self)@, chat_ids@),
    {
        if !is_collecting_phase(self.phase) {
            return Effect::none();
        }
        let ghost s0 = self@;
        let limit: usize = if self.cfg.chat_limit < 0 { 0 } else { self.cfg.chat_limit as usize };
        let n = if limit < chat_ids.len() { limit } else { chat_ids.len() };
        let mut order: Vec<i64> = Vec::new();
        let mut i: usize = 0;
        while i < n
            invariant
                n <= chat_ids.len(),
                i <= n,
                order@ == chat_ids@.take(i as int),
            decreases n - i,
        {
            order.push(chat_ids[i]);
            i += 1;
            assert(order@ =~= chat_ids@.take(i as int));
        }
        self.order = order;
        self.saw_chats = true;
        if n == 0 {
            if !self.did_load {
                self.did_load = true;
                return Effect {
                    send: one_request(load_chats(self.cfg.chat_limit)),
                    lines: one_line(text(EMPTY_LIST_NOTE)),
                    exit: None,
                };
            }
            return self.finish_success();
        }
        self.waiting = keep_untitled(&self.order, &self.titles);
        self.maybe_finish_with_fetches()
    }

    fn while_closing(&mut self, event: &TdEvent) -> (e: Effect)
        ensures
            (final(self)@, e@) == while_closing_spec(old(self)@, *event),
    {
        match event {
            TdEvent::AuthorizationState { state, is_encrypted } => self.on_auth(state.as_str(), *is_encrypted),
            TdEvent::Error { code, message, extra } => {
                let raw = chars_of(message.as_str());
                let lower = lower_chars(raw.as_slice());
                let aborted = chars_of("aborted");
                if *code == 406 || contains_chars(lower.as_slice(), aborted.as_slice()) {
                    return Effect::none();
                }
                let mut line = text("TDLib error ");
                push_int(&mut line, *code);
                line.append(": ");
                line.append(message.as_str());
                lines_only(one_line(line))
            },
            _ => Effect::none(),
        }
    }

    /// Handles one TDLib event.
    pub fn on_event(&mut self, event: &TdEvent) -> (e: Effect)
        ensures
            (final(self)@, e@) == step_spec(old(self)@, *event),
    {
        if matches!(self.phase, Phase::Finished) {
            return Effect::none();
        }
        if matches!(self.phase, Phase::Closing) {
            return self.while_closing(event);
        }
        match event {
            TdEvent::AuthorizationState { state, is_encrypted } => self.on_auth(state.as_str(), *is_encrypted),
            TdEvent::Error { code, message, extra } => self.on_error(*code, message.as_str(), extra.as_str()),
            TdEvent::Accepted { extra } => self.on_ok(extra.as_str()),
            TdEvent::Chats { chat_ids } => self.on_chats(chat_ids),
            TdEvent::Chat { id, title } => self.on_chat_event(id, title),
            TdEvent::NewChat { id, title } => self.on_chat_event(id, title),
            TdEvent::ChatTitle { chat_id, title } => self.on_chat_event(chat_id, title),
            TdEvent::Other => Effect::none(),
        }
    }

    /// Ctrl-C: close the session (never log out) and exit with 130.
    pub fn interrupt(&mut self) -> (e: Effect)
        ensures
            (final(self)@, e@) == interrupt_spec(old(self)@),
    {
        if closing_phase(self.phase) {
            return Effect::none();
        }
        self.begin_close(130, one_line(text(INTERRUPT_NOTE)))
    }

    /// A wait ran out: authorization never became ready, or chat titles
    /// stopped arriving.
    pub fn on_timeout(&mut self, kind: TimeoutKind) -> (e: Effect)
        ensures
            (final(self)@, e@) == timeout_spec(old(self)@, kind),
    {
        if closing_phase(self.phase) {
            return Effect::none();
        }
        match kind {
            TimeoutKind::Auth => {
                let mut line = text("timed out waiting for authorizationStateReady (last state: ");
                if self.last_auth.as_str().is_empty() {
                    line.append(NO_AUTH_YET);
                } else {
                    line.append(self.last_auth.as_str());
                }
                line.append(")");
                let mut lines = one_line(line);
                let ghost first = lines_view(lines@);
                match &self.last_error {
                    Some(err) => {
                        push_line(&mut lines, cat("last TDLib error: ", err.as_str()));
                    },
                    None => {},
                }
                assert(lines_view(lines@) =~= first + optional_line(self@.last_error));
                self.begin_close(1, lines)
            },
            TimeoutKind::Chats => {
                let chats = self.chat_lines();
                let lines = join_lines(one_line(text(WAIT_ENDED)), chats);
                self.begin_close(0, lines)
            },
        }
    }
}


/// Once the session has closed, every further event is ignored.
pub proof fn law_closed_session_ignores_events(s: DriverModel, e: TdEvent)
    requires
        s.phase is Finished,
    ensures
        step_spec(s, e) == (s, no_effect()),
{
}

/// While closing, the driver sends nothing more: no event, interrupt or
/// timeout produces a second request.
pub proof fn law_closing_sends_nothing(s: DriverModel, e: TdEvent, kind: TimeoutKind)
    requires
        is_closing_phase(s.phase),
    ensures
        step_spec(s, e).1.send.len() == 0,
        interrupt_spec(s).1.send.len() == 0,
        timeout_spec(s, kind).1.send.len() == 0,
{
}

/// The process exits only when TDLib reports `authorizationStateClosed`,
/// with the code decided when closing began (1 when none was), and the
/// session is then finished.
#[verifier::spinoff_prover]
#[verifier::rlimit(50)]
pub proof fn law_exit_only_after_closed(s: DriverModel, e: TdEvent)
    ensures
        step_spec(s, e).1.exit is Some ==> {
            &&& e matches TdEvent::AuthorizationState { state, .. }
            &&& state@ == "authorizationStateClosed"@
            &&& step_spec(s, e).1.exit == Some(
                match s.pending_code {
                    Some(c) => c,
                    None => 1i32,
                },
            )
            &&& step_spec(s, e).0.phase is Finished
        },
{
    reveal_with_fuel(Seq::filter, 1);
}

/// No request in `send` opens the database.
pub open spec fn opens_nothing(send: Seq<RequestView>) -> bool {
    forall|i: int| 0 <= i < send.len() ==> !(#[trigger] send[i] is SetTdlibParameters) && !(send[i] is CheckDatabaseEncryptionKey)
}

proof fn lemma_helpers_open_nothing(s: DriverModel, code: i32, lines: Seq<Seq<char>>)
    ensures
        opens_nothing(begin_close_spec(s, code, lines).1.send),
        opens_nothing(finish_success_spec(s).1.send),
        opens_nothing(maybe_finish_spec(s).1.send),
        opens_nothing(maybe_finish_with_fetches_spec(s).1.send),
        opens_nothing(request_chats_spec(s).1.send),
{
}

proof fn lemma_handlers_open_nothing(s: DriverModel, e: TdEvent)
    ensures
        e matches TdEvent::Error { code, message, extra } ==> opens_nothing(on_error_spec(s, code, message@, extra@).1.send),
        e matches TdEvent::Accepted { extra } ==> opens_nothing(on_ok_spec(s, extra@).1.send),
        e matches TdEvent::Chats { chat_ids } ==> opens_nothing(on_chats_spec(s, chat_ids@).1.send),
        opens_nothing(chat_event_spec(s, None, None).1.send),
{
    match e {
        TdEvent::Error { code, message, extra } => {
            let rendered = error_line(code, message@);
            let s1 = DriverModel { last_error: Some(rendered), ..s };
            lemma_helpers_open_nothing(s1, 1, Seq::empty());
            if get_chat_extra_id(extra@) is Some {
                lemma_helpers_open_nothing(give_up_title_spec(s1, get_chat_extra_id(extra@)->0), 1, Seq::empty());
            }
        },
        TdEvent::Accepted { extra } => {
            lemma_helpers_open_nothing(s, 1, Seq::empty());
        },
        TdEvent::Chats { chat_ids } => {
            let n = min(limit_of(s), chat_ids@.len() as int);
            let s1 = DriverModel { order: chat_ids@.take(n), saw_chats: true, ..s };
            lemma_helpers_open_nothing(s1, 1, Seq::empty());
            lemma_helpers_open_nothing(DriverModel { waiting: chat_ids@.take(n).filter(untitled(s.titles)), ..s1 }, 1, Seq::empty());
        },
        _ => {},
    }
    lemma_helpers_open_nothing(s, 1, Seq::empty());
}

proof fn lemma_chat_events_open_nothing(s: DriverModel, id: Option<i64>, title: Option<Seq<char>>)
    ensures
        opens_nothing(chat_event_spec(s, id, title).1.send),
{
    match (id, title) {
        (Some(i), Some(t)) => lemma_helpers_open_nothing(remember_spec(s, i, t), 1, Seq::empty()),
        _ => lemma_helpers_open_nothing(s, 1, Seq::empty()),
    }
}

/// Every request that opens the database carries the empty encryption key
/// and stays off the test DC.
pub proof fn law_database_key_stays_empty(s: DriverModel, e: TdEvent, i: int)
    requires
        0 <= i < step_spec(s, e).1.send.len(),
    ensures
        step_spec(s, e).1.send[i] matches RequestView::SetTdlibParameters(p) ==> p.database_encryption_key
            == ""@ && !p.use_test_dc,
        step_spec(s, e).1.send[i] matches RequestView::CheckDatabaseEncryptionKey { encryption_key, .. }
            ==> encryption_key == ""@,
{
    lemma_handlers_open_nothing(s, e);
    match e {
        TdEvent::Chat { id, title } => lemma_chat_events_open_nothing(s, id, opt_string_view(title)),
        TdEvent::NewChat { id, title } => lemma_chat_events_open_nothing(s, id, opt_string_view(title)),
        TdEvent::ChatTitle { chat_id, title } => lemma_chat_events_open_nothing(s, chat_id, opt_string_view(title)),
        TdEvent::AuthorizationState { state, is_encrypted } => {
            let s1 = DriverModel { last_auth: state@, ..s };
            lemma_helpers_open_nothing(s1, 1, Seq::empty());
            lemma_helpers_open_nothing(DriverModel { saw_ready: true, phase: Phase::Collecting, ..s1 }, 1, Seq::empty());
        },
        _ => {},
    }
}

/// `close` goes out at most once: only a session that was not yet closing
/// sends it, and that session is closing afterwards.
pub proof fn law_close_sent_once(s: DriverModel, e: TdEvent, i: int)
    requires
        0 <= i < step_spec(s, e).1.send.len(),
        step_spec(s, e).1.send[i] is Close,
    ensures
        !is_closing_phase(s.phase),
        step_spec(s, e).0.phase is Closing,
{
}

/// `setTdlibParameters` goes out at most once per session.
pub proof fn law_parameters_sent_once(s: DriverModel, e: TdEvent, i: int)
    requires
        0 <= i < step_spec(s, e).1.send.len(),
        step_spec(s, e).1.send[i] is SetTdlibParameters,
    ensures
        !s.sent_parameters,
        step_spec(s, e).0.sent_parameters,
{
    lemma_handlers_open_nothing(s, e);
    match e {
        TdEvent::Chat { id, title } => lemma_chat_events_open_nothing(s, id, opt_string_view(title)),
        TdEvent::NewChat { id, title } => lemma_chat_events_open_nothing(s, id, opt_string_view(title)),
        TdEvent::ChatTitle { chat_id, title } => lemma_chat_events_open_nothing(s, chat_id, opt_string_view(title)),
        TdEvent::AuthorizationState { state, is_encrypted } => {
            let s1 = DriverModel { last_auth: state@, ..s };
            lemma_helpers_open_nothing(s1, 1, Seq::empty());
            lemma_helpers_open_nothing(DriverModel { saw_ready: true, phase: Phase::Collecting, ..s1 }, 1, Seq::empty());
        },
        _ => {},
    }
}

/// TDLib reporting `authorizationStateClosed` finishes a session that had
/// not finished: the process exits with the code decided when closing began
/// (1 when none was), sends nothing, prints `closed` last and keeps that
/// code; from then on no event, interrupt or timeout does anything.
pub proof fn law_closed_state_finishes(s: DriverModel, state: String, encrypted: bool, later: TdEvent, kind: TimeoutKind)
    requires
        !(s.phase is Finished),
        state@ == "authorizationStateClosed"@,
    ensures
        ({
            let (s2, out) = step_spec(s, TdEvent::AuthorizationState { state, is_encrypted: encrypted });
            let code = match s.pending_code {
                Some(c) => c,
                None => 1i32,
            };
            &&& out.exit == Some(code)
            &&& out.send.len() == 0
            &&& out.lines.len() > 0 && out.lines.last() == "closed"@
            &&& s2.phase is Finished
            &&& s2.pending_code == Some(code)
            &&& step_spec(s2, later) == (s2, no_effect())
            &&& interrupt_spec(s2) == (s2, no_effect())
            &&& timeout_spec(s2, kind) == (s2, no_effect())
        }),
{
    reveal_strlit("authorizationStateClosed");
    reveal_strlit("authorizationStateWaitTdlibParameters");
    reveal_strlit("authorizationStateWaitEncryptionKey");
    reveal_strlit("authorizationStateReady");
    reveal_strlit("authorizationStateLoggingOut");
    reveal_strlit("authorizationStateClosing");
    reveal_strlit("authorizationStateWaitPhoneNumber");
    reveal_strlit("authorizationStateWaitCode");
    reveal_strlit("authorizationStateWaitPassword");
    reveal_strlit("authorizationStateWaitRegistration");
    reveal_strlit("authorizationStateWaitEmailAddress");
    reveal_strlit("authorizationStateWaitEmailCode");
    reveal_strlit("authorizationStateWaitOtherDeviceConfirmation");
    reveal_strlit("authorizationStateWaitPremiumPurchase");
}

/// The codes a close can set: 0 after the list was printed or a chat wait
/// ran out, 1 for a failure, 3 when the database holds no logged-in
/// session, 130 for an interrupt.
pub open spec fn known_exit_code(c: i32) -> bool {
    c == 0 || c == 1 || c == 3 || c == 130
}

/// The exit code is fixed in a session: the driver holds a pending exit
/// code exactly while it is closing or finished, that code is one a close
/// sets, and once it holds one no event, interrupt or timeout changes it.
pub open spec fn pending_code_ok(s: DriverModel) -> bool {
    &&& s.pending_code is Some <==> is_closing_phase(s.phase)
    &&& s.pending_code matches Some(c) ==> known_exit_code(c)
}

pub open spec fn code_kept(s: DriverModel, s2: DriverModel) -> bool {
    pending_code_ok(s2) && (s.pending_code is Some ==> s2.pending_code == s.pending_code)
}

proof fn lemma_helpers_keep_code(s: DriverModel, code: i32, lines: Seq<Seq<char>>)
    requires
        pending_code_ok(s),
        known_exit_code(code),
    ensures
        code_kept(s, begin_close_spec(s, code, lines).0),
        code_kept(s, finish_success_spec(s).0),
        code_kept(s, maybe_finish_spec(s).0),
        code_kept(s, maybe_finish_with_fetches_spec(s).0),
        code_kept(s, request_chats_spec(s).0),
{
}

#[verifier::spinoff_prover]
proof fn lemma_auth_keeps_code(s: DriverModel, state: Seq<char>, encrypted: bool)
    requires
        pending_code_ok(s),
    ensures
        code_kept(s, on_auth_spec(s, state, encrypted).0),
{
    let s1 = DriverModel { last_auth: state, ..s };
    lemma_helpers_keep_code(s1, 3, seq![auth_line(state), INCOMPLETE_NOTE@]);
    lemma_helpers_keep_code(s1, 1, seq![auth_line(state), LOGGING_OUT_NOTE@]);
    if s.phase is WaitAuth {
        lemma_helpers_keep_code(DriverModel { saw_ready: true, phase: Phase::Collecting, ..s1 }, 1, Seq::empty());
    }
}

#[verifier::spinoff_prover]
proof fn lemma_error_keeps_code(s: DriverModel, code: i64, message: Seq<char>, extra: Seq<char>)
    requires
        pending_code_ok(s),
    ensures
        code_kept(s, on_error_spec(s, code, message, extra).0),
{
    let rendered = error_line(code, message);
    let s1 = DriverModel { last_error: Some(rendered), ..s };
    let hint = explain_spec(code, message, extra);
    let lines = seq![rendered] + match hint {
        Some(h) => seq!["hint: "@ + h],
        None => Seq::empty(),
    };
    lemma_helpers_keep_code(s1, 1, lines);
    if get_chat_extra_id(extra) is Some {
        lemma_helpers_keep_code(give_up_title_spec(s1, get_chat_extra_id(extra)->0), 1, lines);
    }
}

#[verifier::spinoff_prover]
proof fn lemma_chats_keep_code(s: DriverModel, ids: Seq<i64>)
    requires
        pending_code_ok(s),
    ensures
        code_kept(s, on_chats_spec(s, ids).0),
{
    let n = min(limit_of(s), ids.len() as int);
    let s1 = DriverModel { order: ids.take(n), saw_chats: true, ..s };
    lemma_helpers_keep_code(s1, 1, Seq::empty());
    lemma_helpers_keep_code(DriverModel { waiting: ids.take(n).filter(untitled(s.titles)), ..s1 }, 1, Seq::empty());
}

proof fn lemma_chat_event_keeps_code(s: DriverModel, id: Option<i64>, title: Option<Seq<char>>)
    requires
        pending_code_ok(s),
    ensures
        code_kept(s, chat_event_spec(s, id, title).0),
{
    match (id, title) {
        (Some(i), Some(t)) => lemma_helpers_keep_code(remember_spec(s, i, t), 1, Seq::empty()),
        _ => lemma_helpers_keep_code(s, 1, Seq::empty()),
    }
}

pub proof fn law_pending_code_kept(s: DriverModel, e: TdEvent, kind: TimeoutKind)
    requires
        pending_code_ok(s),
    ensures
        pending_code_ok(step_spec(s, e).0),
        pending_code_ok(interrupt_spec(s).0),
        pending_code_ok(timeout_spec(s, kind).0),
        s.pending_code is Some ==> step_spec(s, e).0.pending_code == s.pending_code,
        s.pending_code is Some ==> interrupt_spec(s).0.pending_code == s.pending_code,
        s.pending_code is Some ==> timeout_spec(s, kind).0.pending_code == s.pending_code,
{
    lemma_helpers_keep_code(s, 130, seq![INTERRUPT_NOTE@]);
    match kind {
        TimeoutKind::Auth => {
            let state = if s.last_auth.len() == 0 { NO_AUTH_YET@ } else { s.last_auth };
            let lines = seq!["timed out waiting for authorizationStateReady (last state: "@ + state + ")"@]
                + optional_line(s.last_error);
            lemma_helpers_keep_code(s, 1, lines);
        },
        TimeoutKind::Chats => lemma_helpers_keep_code(s, 0, seq![WAIT_ENDED@] + chat_lines_spec(s)),
    }
    match e {
        TdEvent::AuthorizationState { state, is_encrypted } => lemma_auth_keeps_code(s, state@, is_encrypted),
        TdEvent::Error { code, message, extra } => lemma_error_keeps_code(s, code, message@, extra@),
        TdEvent::Accepted { extra } => lemma_helpers_keep_code(s, 1, Seq::empty()),
        TdEvent::Chats { chat_ids } => lemma_chats_keep_code(s, chat_ids@),
        TdEvent::Chat { id, title } => lemma_chat_event_keeps_code(s, id, opt_string_view(title)),
        TdEvent::NewChat { id, title } => lemma_chat_event_keeps_code(s, id, opt_string_view(title)),
        TdEvent::ChatTitle { chat_id, title } => lemma_chat_event_keeps_code(s, chat_id, opt_string_view(title)),
        _ => {},
    }
}

/// `t` is `s` but for, perhaps, the `api_hash` of its configuration.
pub open spec fn same_but_api_hash(s: DriverModel, t: DriverModel) -> bool {
    t == DriverModel { cfg: SessionConfig { api_hash: t.cfg.api_hash, ..s.cfg }, ..s }
}

/// What the driver prints and how it exits never depend on the `api_hash`:
/// two sessions that differ only in it print the same lines and exit with
/// the same code on every event, interrupt and timeout, and still differ
/// only in it afterwards. (The hash goes out only inside
/// `setTdlibParameters`.)
pub open spec fn same_output(a: (DriverModel, EffectView), b: (DriverModel, EffectView)) -> bool {
    a.1.lines == b.1.lines && a.1.exit == b.1.exit && same_but_api_hash(a.0, b.0)
}

proof fn lemma_helpers_ignore_hash(s: DriverModel, t: DriverModel, code: i32, lines: Seq<Seq<char>>)
    requires
        same_but_api_hash(s, t),
    ensures
        same_output(begin_close_spec(s, code, lines), begin_close_spec(t, code, lines)),
        same_output(finish_success_spec(s), finish_success_spec(t)),
        same_output(maybe_finish_spec(s), maybe_finish_spec(t)),
        same_output(maybe_finish_with_fetches_spec(s), maybe_finish_with_fetches_spec(t)),
        same_output(request_chats_spec(s), request_chats_spec(t)),
{
    assert(chat_lines_spec(s) == chat_lines_spec(t));
}

#[verifier::spinoff_prover]
proof fn lemma_auth_ignores_hash(s: DriverModel, t: DriverModel, state: Seq<char>, encrypted: bool)
    requires
        same_but_api_hash(s, t),
    ensures
        same_output(on_auth_spec(s, state, encrypted), on_auth_spec(t, state, encrypted)),
{
    let s1 = DriverModel { last_auth: state, ..s };
    let t1 = DriverModel { last_auth: state, ..t };
    lemma_helpers_ignore_hash(s1, t1, 3, seq![auth_line(state), INCOMPLETE_NOTE@]);
    lemma_helpers_ignore_hash(s1, t1, 1, seq![auth_line(state), LOGGING_OUT_NOTE@]);
    lemma_helpers_ignore_hash(
        DriverModel { saw_ready: true, phase: Phase::Collecting, ..s1 },
        DriverModel { saw_ready: true, phase: Phase::Collecting, ..t1 },
        1,
        Seq::empty(),
    );
}

#[verifier::spinoff_prover]
proof fn lemma_error_ignores_hash(s: DriverModel, t: DriverModel, code: i64, message: Seq<char>, extra: Seq<char>)
    requires
        same_but_api_hash(s, t),
    ensures
        same_output(on_error_spec(s, code, message, extra), on_error_spec(t, code, message, extra)),
{
    let rendered = error_line(code, message);
    let s1 = DriverModel { last_error: Some(rendered), ..s };
    let t1 = DriverModel { last_error: Some(rendered), ..t };
    let hint = explain_spec(code, message, extra);
    let lines = seq![rendered] + match hint {
        Some(h) => seq!["hint: "@ + h],
        None => Seq::empty(),
    };
    lemma_helpers_ignore_hash(s1, t1, 1, lines);
    if get_chat_extra_id(extra) is Some {
        let id = get_chat_extra_id(extra)->0;
        lemma_helpers_ignore_hash(give_up_title_spec(s1, id), give_up_title_spec(t1, id), 1, lines);
    }
}

#[verifier::spinoff_prover]
proof fn lemma_chats_ignore_hash(s: DriverModel, t: DriverModel, ids: Seq<i64>)
    requires
        same_but_api_hash(s, t),
    ensures
        same_output(on_chats_spec(s, ids), on_chats_spec(t, ids)),
{
    let n = min(limit_of(s), ids.len() as int);
    assert(limit_of(s) == limit_of(t));
    let s1 = DriverModel { order: ids.take(n), saw_chats: true, ..s };
    let t1 = DriverModel { order: ids.take(n), saw_chats: true, ..t };
    lemma_helpers_ignore_hash(s1, t1, 1, Seq::empty());
    lemma_helpers_ignore_hash(
        DriverModel { waiting: ids.take(n).filter(untitled(s.titles)), ..s1 },
        DriverModel { waiting: ids.take(n).filter(untitled(t.titles)), ..t1 },
        1,
        Seq::empty(),
    );
}

proof fn lemma_chat_event_ignores_hash(s: DriverModel, t: DriverModel, id: Option<i64>, title: Option<Seq<char>>)
    requires
        same_but_api_hash(s, t),
    ensures
        same_output(chat_event_spec(s, id, title), chat_event_spec(t, id, title)),
{
    match (id, title) {
        (Some(i), Some(x)) => lemma_helpers_ignore_hash(remember_spec(s, i, x), remember_spec(t, i, x), 1, Seq::empty()),
        _ => lemma_helpers_ignore_hash(s, t, 1, Seq::empty()),
    }
}

#[verifier::spinoff_prover]
pub proof fn law_output_ignores_api_hash(s: DriverModel, t: DriverModel, e: TdEvent, kind: TimeoutKind)
    requires
        same_but_api_hash(s, t),
    ensures
        step_spec(t, e).1.lines == step_spec(s, e).1.lines,
        step_spec(t, e).1.exit == step_spec(s, e).1.exit,
        same_but_api_hash(step_spec(s, e).0, step_spec(t, e).0),
        interrupt_spec(t).1.lines == interrupt_spec(s).1.lines,
        same_but_api_hash(interrupt_spec(s).0, interrupt_spec(t).0),
        timeout_spec(t, kind).1.lines == timeout_spec(s, kind).1.lines,
        same_but_api_hash(timeout_spec(s, kind).0, timeout_spec(t, kind).0),
{
    lemma_helpers_ignore_hash(s, t, 130, seq![INTERRUPT_NOTE@]);
    match kind {
        TimeoutKind::Auth => {
            let state = if s.last_auth.len() == 0 { NO_AUTH_YET@ } else { s.last_auth };
            let lines = seq!["timed out waiting for authorizationStateReady (last state: "@ + state + ")"@]
                + optional_line(s.last_error);
            lemma_helpers_ignore_hash(s, t, 1, lines);
        },
        TimeoutKind::Chats => {
            assert(chat_lines_spec(s) == chat_lines_spec(t));
            lemma_helpers_ignore_hash(s, t, 0, seq![WAIT_ENDED@] + chat_lines_spec(s));
        },
    }
    match e {
        TdEvent::AuthorizationState { state, is_encrypted } => lemma_auth_ignores_hash(s, t, state@, is_encrypted),
        TdEvent::Error { code, message, extra } => lemma_error_ignores_hash(s, t, code, message@, extra@),
        TdEvent::Accepted { extra } => lemma_helpers_ignore_hash(s, t, 1, Seq::empty()),
        TdEvent::Chats { chat_ids } => lemma_chats_ignore_hash(s, t, chat_ids@),
        TdEvent::Chat { id, title } => lemma_chat_event_ignores_hash(s, t, id, opt_string_view(title)),
        TdEvent::NewChat { id, title } => lemma_chat_event_ignores_hash(s, t, id, opt_string_view(title)),
        TdEvent::ChatTitle { chat_id, title } => lemma_chat_event_ignores_hash(s, t, chat_id, opt_string_view(title)),
        _ => {},
    }
}

/// The requests a headless session sends: parameters, the key check, chat
/// lists, single chats, and `close`. None of them logs out.
pub open spec fn session_request(r: RequestView) -> bool {
    r is SetTdlibParameters || r is CheckDatabaseEncryptionKey || r is GetChats || r is LoadChats || r is GetChat
        || r is Close
}

pub open spec fn session_requests(send: Seq<RequestView>) -> bool {
    forall|i: int| 0 <= i < send.len() ==> session_request(#[trigger] send[i])
}

proof fn lemma_helpers_session_requests(s: DriverModel, code: i32, lines: Seq<Seq<char>>)
    ensures
        session_requests(begin_close_spec(s, code, lines).1.send),
        session_requests(finish_success_spec(s).1.send),
        session_requests(maybe_finish_spec(s).1.send),
        session_requests(maybe_finish_with_fetches_spec(s).1.send),
        session_requests(request_chats_spec(s).1.send),
{
}

/// Every request the driver sends, on any event, interrupt or timeout, is
/// one of the session's own: `setTdlibParameters`,
/// `checkDatabaseEncryptionKey`, `getChats`, `loadChats`, `getChat` or
/// `close`; it never logs out.
#[verifier::spinoff_prover]
pub proof fn law_never_logs_out(s: DriverModel, e: TdEvent, kind: TimeoutKind)
    ensures
        session_requests(step_spec(s, e).1.send),
        session_requests(interrupt_spec(s).1.send),
        session_requests(timeout_spec(s, kind).1.send),
{
    lemma_helpers_session_requests(s, 130, seq![INTERRUPT_NOTE@]);
    match kind {
        TimeoutKind::Auth => {
            let state = if s.last_auth.len() == 0 { NO_AUTH_YET@ } else { s.last_auth };
            let lines = seq!["timed out waiting for authorizationStateReady (last state: "@ + state + ")"@]
                + optional_line(s.last_error);
            lemma_helpers_session_requests(s, 1, lines);
        },
        TimeoutKind::Chats => lemma_helpers_session_requests(s, 0, seq![WAIT_ENDED@] + chat_lines_spec(s)),
    }
    match e {
        TdEvent::AuthorizationState { state, is_encrypted } => {
            let s1 = DriverModel { last_auth: state@, ..s };
            lemma_helpers_session_requests(s1, 3, seq![auth_line(state@), INCOMPLETE_NOTE@]);
            lemma_helpers_session_requests(s1, 1, seq![auth_line(state@), LOGGING_OUT_NOTE@]);
            lemma_helpers_session_requests(DriverModel { saw_ready: true, phase: Phase::Collecting, ..s1 }, 1, Seq::empty());
            assert(session_requests(on_auth_spec(s, state@, is_encrypted).1.send));
        },
        TdEvent::Error { code, message, extra } => {
            let rendered = error_line(code, message@);
            let s1 = DriverModel { last_error: Some(rendered), ..s };
            let hint = explain_spec(code, message@, extra@);
            let lines = seq![rendered] + match hint {
                Some(h) => seq!["hint: "@ + h],
                None => Seq::empty(),
            };
            lemma_helpers_session_requests(s1, 1, lines);
            if get_chat_extra_id(extra@) is Some {
                lemma_helpers_session_requests(give_up_title_spec(s1, get_chat_extra_id(extra@)->0), 1, lines);
            }
        },
        TdEvent::Accepted { extra } => lemma_helpers_session_requests(s, 1, Seq::empty()),
        TdEvent::Chats { chat_ids } => {
            let n = min(limit_of(s), chat_ids@.len() as int);
            let s1 = DriverModel { order: chat_ids@.take(n), saw_chats: true, ..s };
            lemma_helpers_session_requests(s1, 1, Seq::empty());
            lemma_helpers_session_requests(
                DriverModel { waiting: chat_ids@.take(n).filter(untitled(s.titles)), ..s1 },
                1,
                Seq::empty(),
            );
        },
        TdEvent::Chat { id, title } => lemma_chat_event_session(s, id, opt_string_view(title)),
        TdEvent::NewChat { id, title } => lemma_chat_event_session(s, id, opt_string_view(title)),
        TdEvent::ChatTitle { chat_id, title } => lemma_chat_event_session(s, chat_id, opt_string_view(title)),
        _ => {},
    }
}

proof fn lemma_chat_event_session(s: DriverModel, id: Option<i64>, title: Option<Seq<char>>)
    ensures
        session_requests(chat_event_spec(s, id, title).1.send),
{
    match (id, title) {
        (Some(i), Some(x)) => lemma_helpers_session_requests(remember_spec(s, i, x), 1, Seq::empty()),
        _ => lemma_helpers_session_requests(s, 1, Seq::empty()),
    }
}

/// Hints ignore ASCII letter case: two messages that are the same once
/// lowercased get the same hint, and a message gets the hint of its own
/// lowercase form.
pub proof fn law_explain_ignores_case(code: i64, m1: Seq<char>, m2: Seq<char>, extra: Seq<char>)
    ensures
        lower_seq(m1) == lower_seq(m2) ==> explain_spec(code, m1, extra) == explain_spec(code, m2, extra),
        explain_spec(code, lower_seq(m1), extra) == explain_spec(code, m1, extra),
{
    assert forall|i: int| 0 <= i < m1.len() implies #[trigger] lower_char(lower_char(m1[i])) == lower_char(m1[i]) by {
        let c = m1[i];
        if 'A' <= c && c <= 'Z' {
            assert((c as u32) + 32 <= 'z' as u32);
        }
    }
    assert(lower_seq(lower_seq(m1)) =~= lower_seq(m1));
}

/// One call a receive loop makes on the driver.
pub enum DriverCall {
    Event(TdEvent),
    Interrupt,
    Timeout(TimeoutKind),
}

/// What one call does.
pub open spec fn call_spec(s: DriverModel, c: DriverCall) -> (DriverModel, EffectView) {
    match c {
        DriverCall::Event(e) => step_spec(s, e),
        DriverCall::Interrupt => interrupt_spec(s),
        DriverCall::Timeout(k) => timeout_spec(s, k),
    }
}

/// The driver after a sequence of calls.
pub open spec fn run_calls(s: DriverModel, calls: Seq<DriverCall>) -> DriverModel
    decreases calls.len(),
{
    if calls.len() == 0 {
        s
    } else {
        call_spec(run_calls(s, calls.drop_last()), calls.last()).0
    }
}

/// The effect of the `k`-th call of a sequence.
pub open spec fn effect_at(s: DriverModel, calls: Seq<DriverCall>, k: int) -> EffectView {
    call_spec(run_calls(s, calls.take(k)), calls[k]).1
}

proof fn lemma_run_calls_prefix(s: DriverModel, calls: Seq<DriverCall>, k: int)
    requires
        0 <= k < calls.len(),
    ensures
        run_calls(s, calls.take(k + 1)) == call_spec(run_calls(s, calls.take(k)), calls[k]).0,
{
    assert(calls.take(k + 1).drop_last() =~= calls.take(k));
}

/// Over any sequence of events, interrupts and timeouts, every request the
/// driver sends is a session request: it never logs out.
pub proof fn law_calls_never_log_out(s: DriverModel, calls: Seq<DriverCall>, k: int)
    requires
        0 <= k < calls.len(),
    ensures
        session_requests(effect_at(s, calls, k).send),
{
    let st = run_calls(s, calls.take(k));
    match calls[k] {
        DriverCall::Event(e) => law_never_logs_out(st, e, TimeoutKind::Auth),
        DriverCall::Interrupt => law_never_logs_out(st, TdEvent::Other, TimeoutKind::Auth),
        DriverCall::Timeout(kind) => law_never_logs_out(st, TdEvent::Other, kind),
    }
}

proof fn lemma_call_ignores_hash(s: DriverModel, t: DriverModel, c: DriverCall)
    requires
        same_but_api_hash(s, t),
    ensures
        call_spec(t, c).1.lines == call_spec(s, c).1.lines,
        call_spec(t, c).1.exit == call_spec(s, c).1.exit,
        same_but_api_hash(call_spec(s, c).0, call_spec(t, c).0),
{
    match c {
        DriverCall::Event(e) => law_output_ignores_api_hash(s, t, e, TimeoutKind::Auth),
        DriverCall::Interrupt => law_output_ignores_api_hash(s, t, TdEvent::Other, TimeoutKind::Auth),
        DriverCall::Timeout(kind) => law_output_ignores_api_hash(s, t, TdEvent::Other, kind),
    }
}

proof fn lemma_runs_ignore_hash(s: DriverModel, t: DriverModel, calls: Seq<DriverCall>)
    requires
        same_but_api_hash(s, t),
    ensures
        same_but_api_hash(run_calls(s, calls), run_calls(t, calls)),
    decreases calls.len(),
{
    if calls.len() > 0 {
        lemma_runs_ignore_hash(s, t, calls.drop_last());
        lemma_call_ignores_hash(run_calls(s, calls.drop_last()), run_calls(t, calls.drop_last()), calls.last());
    }
}

/// Over any sequence of calls, two sessions that differ only in the
/// `api_hash` print the same lines and exit alike at every call: nothing
/// printed depends on the hash.
pub proof fn law_calls_output_ignores_api_hash(s: DriverModel, t: DriverModel, calls: Seq<DriverCall>, k: int)
    requires
        same_but_api_hash(s, t),
        0 <= k < calls.len(),
    ensures
        effect_at(t, calls, k).lines == effect_at(s, calls, k).lines,
        effect_at(t, calls, k).exit == effect_at(s, calls, k).exit,
{
    lemma_runs_ignore_hash(s, t, calls.take(k));
    lemma_call_ignores_hash(run_calls(s, calls.take(k)), run_calls(t, calls.take(k)), calls[k]);
}

proof fn lemma_call_keeps_code(s: DriverModel, c: DriverCall)
    requires
        pending_code_ok(s),
    ensures
        code_kept(s, call_spec(s, c).0),
{
    match c {
        DriverCall::Event(e) => law_pending_code_kept(s, e, TimeoutKind::Auth),
        DriverCall::Interrupt => law_pending_code_kept(s, TdEvent::Other, TimeoutKind::Auth),
        DriverCall::Timeout(kind) => law_pending_code_kept(s, TdEvent::Other, kind),
    }
}

proof fn lemma_runs_keep_code(s: DriverModel, calls: Seq<DriverCall>, j: int, k: int)
    requires
        pending_code_ok(s),
        0 <= j <= k <= calls.len(),
    ensures
        pending_code_ok(run_calls(s, calls.take(k))),
        run_calls(s, calls.take(j)).pending_code is Some ==> run_calls(s, calls.take(k)).pending_code
            == run_calls(s, calls.take(j)).pending_code,
    decreases k,
{
    if k == 0 {
        assert(calls.take(0) =~= Seq::<DriverCall>::empty());
    } else if j == k {
        lemma_runs_keep_code(s, calls, k - 1, k - 1);
        lemma_run_calls_prefix(s, calls, k - 1);
        lemma_call_keeps_code(run_calls(s, calls.take(k - 1)), calls[k - 1]);
    } else {
        lemma_runs_keep_code(s, calls, j, k - 1);
        lemma_run_calls_prefix(s, calls, k - 1);
        lemma_call_keeps_code(run_calls(s, calls.take(k - 1)), calls[k - 1]);
    }
}

/// From a new driver, over any sequence of calls: the driver holds an exit
/// code exactly while it is closing or finished, that code is 0, 1, 3 or
/// 130, and the code the first close set is the one it keeps after every
/// later call (`pending_code` gives 1 while no close has begun).
pub proof fn law_calls_keep_exit_code(cfg: SessionConfig, calls: Seq<DriverCall>, j: int, k: int)
    requires
        0 <= j <= k <= calls.len(),
    ensures
        pending_code_ok(run_calls(initial_model(cfg), calls.take(k))),
        run_calls(initial_model(cfg), calls.take(j)).pending_code is Some ==> run_calls(
            initial_model(cfg),
            calls.take(k),
        ).pending_code == run_calls(initial_model(cfg), calls.take(j)).pending_code,
{
    lemma_runs_keep_code(initial_model(cfg), calls, j, k);
}

} // verus!
