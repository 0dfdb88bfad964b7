//! Requests the library asks the TDLib client to send.
//!
//! Each variant is one TDLib 1.8.67 function with the fields this client
//! fills in. The program turns them into TDLib's JSON; nothing here has a
//! `logOut`, so no path of the library can log a session out.

use vstd::prelude::*;
use crate::notify::{ChatNotificationSettings, NotificationScope, ScopeNotificationState};

verus! {

/// A TDLib chat list.
#[derive(Clone, Copy, Debug, PartialEq, Eq)]
pub enum ChatList {
    /// `chatListMain`.
    Main,
    /// `chatListFolder` with this `chat_folder_id`.
    Folder(i32),
}

/// Fields of `setTdlibParameters`.
#[derive(Clone, Debug, PartialEq, Eq)]
pub struct TdlibParameters {
    pub use_test_dc: bool,
    pub database_directory: String,
    pub files_directory: String,
    pub database_encryption_key: String,
    pub use_file_database: bool,
    pub use_chat_info_database: bool,
    pub use_message_database: bool,
    pub use_secret_chats: bool,
    pub api_id: i32,
    pub api_hash: String,
    pub system_language_code: String,
    pub device_model: String,
    pub system_version: String,
    pub application_version: String,
    pub extra: String,
}

/// One TDLib request.
#[derive(Clone, Debug, PartialEq, Eq)]
#[allow(inconsistent_fields)]
pub enum Request {
    SetTdlibParameters(TdlibParameters),
    SetLogVerbosityLevel { new_verbosity_level: i32 },
    GetOption { name: String, extra: Option<String> },
    CheckDatabaseEncryptionKey { encryption_key: String, extra: String },
    GetChats { chat_list: ChatList, limit: i32, extra: String },
    LoadChats { chat_list: ChatList, limit: i32, extra: String },
    GetChat { chat_id: i64, extra: String },
    Close { extra: String },
    GetScopeNotificationSettings { scope: NotificationScope, extra: String },
    SetScopeNotificationSettings {
        scope: NotificationScope,
        notification_settings: ScopeNotificationState,
        extra: String,
    },
    SetChatNotificationSettings {
        chat_id: i64,
        notification_settings: ChatNotificationSettings,
        extra: String,
    },
    GetMe { extra: String },
    GetUser { user_id: i64, extra: String },
    /// Asynchronous, whole file.
    DownloadFile { file_id: i32, priority: i32, extra: String },
    /// From offset zero, not only local.
    GetChatHistory { chat_id: i64, from_message_id: i64, limit: i32, extra: String },
    OpenChat { chat_id: i64, extra: String },
    CloseChat { chat_id: i64, extra: String },
    /// Viewed in the chat history, forced read.
    ViewMessages { chat_id: i64, message_ids: Vec<i64>, extra: String },
    ToggleChatIsMarkedAsUnread { chat_id: i64, is_marked_as_unread: bool, extra: String },
    /// Plain text, no entities.
    SendMessage { chat_id: i64, text: String, extra: String },
    /// Any chat type.
    SearchChats { query: String, limit: i32, extra: String },
    /// Any chat type.
    SearchChatsOnServer { query: String, limit: i32, extra: String },
    /// Any chat type.
    SearchPublicChats { query: String, extra: String },
    GetContacts { extra: String },
    /// Not forced.
    CreatePrivateChat { user_id: i64, extra: String },
}

/// The TDLib `@type` of a request.
pub open spec fn request_type(r: Request) -> Seq<char> {
    match r {
        Request::SetTdlibParameters(_) => "setTdlibParameters"@,
        Request::SetLogVerbosityLevel { .. } => "setLogVerbosityLevel"@,
        Request::GetOption { .. } => "getOption"@,
        Request::CheckDatabaseEncryptionKey { .. } => "checkDatabaseEncryptionKey"@,
        Request::GetChats { .. } => "getChats"@,
        Request::LoadChats { .. } => "loadChats"@,
        Request::GetChat { .. } => "getChat"@,
        Request::Close { .. } => "close"@,
        Request::GetScopeNotificationSettings { .. } => "getScopeNotificationSettings"@,
        Request::SetScopeNotificationSettings { .. } => "setScopeNotificationSettings"@,
        Request::SetChatNotificationSettings { .. } => "setChatNotificationSettings"@,
        Request::GetMe { .. } => "getMe"@,
        Request::GetUser { .. } => "getUser"@,
        Request::DownloadFile { .. } => "downloadFile"@,
        Request::GetChatHistory { .. } => "getChatHistory"@,
        Request::OpenChat { .. } => "openChat"@,
        Request::CloseChat { .. } => "closeChat"@,
        Request::ViewMessages { .. } => "viewMessages"@,
        Request::ToggleChatIsMarkedAsUnread { .. } => "toggleChatIsMarkedAsUnread"@,
        Request::SendMessage { .. } => "sendMessage"@,
        Request::SearchChats { .. } => "searchChats"@,
        Request::SearchChatsOnServer { .. } => "searchChatsOnServer"@,
        Request::SearchPublicChats { .. } => "searchPublicChats"@,
        Request::GetContacts { .. } => "getContacts"@,
        Request::CreatePrivateChat { .. } => "createPrivateChat"@,
    }
}

/// [`TdlibParameters`] with its strings as character sequences.
pub struct TdlibParametersView {
    pub use_test_dc: bool,
    pub database_directory: Seq<char>,
    pub files_directory: Seq<char>,
    pub database_encryption_key: Seq<char>,
    pub use_file_database: bool,
    pub use_chat_info_database: bool,
    pub use_message_database: bool,
    pub use_secret_chats: bool,
    pub api_id: i32,
    pub api_hash: Seq<char>,
    pub system_language_code: Seq<char>,
    pub device_model: Seq<char>,
    pub system_version: Seq<char>,
    pub application_version: Seq<char>,
    pub extra: Seq<char>,
}

/// [`Request`] with its strings as character sequences.
#[allow(inconsistent_fields)]
pub enum RequestView {
    SetTdlibParameters(TdlibParametersView),
    SetLogVerbosityLevel { new_verbosity_level: i32 },
    GetOption { name: Seq<char>, extra: Option<Seq<char>> },
    CheckDatabaseEncryptionKey { encryption_key: Seq<char>, extra: Seq<char> },
    GetChats { chat_list: ChatList, limit: i32, extra: Seq<char> },
    LoadChats { chat_list: ChatList, limit: i32, extra: Seq<char> },
    GetChat { chat_id: i64, extra: Seq<char> },
    Close { extra: Seq<char> },
    GetScopeNotificationSettings { scope: NotificationScope, extra: Seq<char> },
    SetScopeNotificationSettings {
        scope: NotificationScope,
        notification_settings: ScopeNotificationState,
        extra: Seq<char>,
    },
    SetChatNotificationSettings {
        chat_id: i64,
        notification_settings: ChatNotificationSettings,
        extra: Seq<char>,
    },
    GetMe { extra: Seq<char> },
    GetUser { user_id: i64, extra: Seq<char> },
    DownloadFile { file_id: i32, priority: i32, extra: Seq<char> },
    GetChatHistory { chat_id: i64, from_message_id: i64, limit: i32, extra: Seq<char> },
    OpenChat { chat_id: i64, extra: Seq<char> },
    CloseChat { chat_id: i64, extra: Seq<char> },
    ViewMessages { chat_id: i64, message_ids: Seq<i64>, extra: Seq<char> },
    ToggleChatIsMarkedAsUnread { chat_id: i64, is_marked_as_unread: bool, extra: Seq<char> },
    SendMessage { chat_id: i64, text: Seq<char>, extra: Seq<char> },
    SearchChats { query: Seq<char>, limit: i32, extra: Seq<char> },
    SearchChatsOnServer { query: Seq<char>, limit: i32, extra: Seq<char> },
    SearchPublicChats { query: Seq<char>, extra: Seq<char> },
    GetContacts { extra: Seq<char> },
    CreatePrivateChat { user_id: i64, extra: Seq<char> },
}

impl View for TdlibParameters {
    type V = TdlibParametersView;

    open spec fn view(&self) -> TdlibParametersView {
        TdlibParametersView {
            use_test_dc: self.use_test_dc,
            database_directory: self.database_directory@,
            files_directory: self.files_directory@,
            database_encryption_key: self.database_encryption_key@,
            use_file_database: self.use_file_database,
            use_chat_info_database: self.use_chat_info_database,
            use_message_database: self.use_message_database,
            use_secret_chats: self.use_secret_chats,
            api_id: self.api_id,
            api_hash: self.api_hash@,
            system_language_code: self.system_language_code@,
            device_model: self.device_model@,
            system_version: self.system_version@,
            application_version: self.application_version@,
            extra: self.extra@,
        }
    }
}

impl View for Request {
    type V = RequestView;

    open spec fn view(&self) -> RequestView {
        match self {
            Request::SetTdlibParameters(p) => RequestView::SetTdlibParameters(p@),
            Request::SetLogVerbosityLevel { new_verbosity_level } => RequestView::SetLogVerbosityLevel {
                new_verbosity_level: *new_verbosity_level,
            },
            Request::GetOption { name, extra } => RequestView::GetOption {
                name: name@,
                extra: match extra {
                    Some(e) => Some(e@),
                    None => None,
                },
            },
            Request::CheckDatabaseEncryptionKey { encryption_key, extra } =>
                RequestView::CheckDatabaseEncryptionKey { encryption_key: encryption_key@, extra: extra@ },
            Request::GetChats { chat_list, limit, extra } => RequestView::GetChats {
                chat_list: *chat_list,
                limit: *limit,
                extra: extra@,
            },
            Request::LoadChats { chat_list, limit, extra } => RequestView::LoadChats {
                chat_list: *chat_list,
                limit: *limit,
                extra: extra@,
            },
            Request::GetChat { chat_id, extra } => RequestView::GetChat { chat_id: *chat_id, extra: extra@ },
            Request::Close { extra } => RequestView::Close { extra: extra@ },
            Request::GetScopeNotificationSettings { scope, extra } =>
                RequestView::GetScopeNotificationSettings { scope: *scope, extra: extra@ },
            Request::SetScopeNotificationSettings { scope, notification_settings, extra } =>
                RequestView::SetScopeNotificationSettings {
                    scope: *scope,
                    notification_settings: *notification_settings,
                    extra: extra@,
                },
            Request::SetChatNotificationSettings { chat_id, notification_settings, extra } =>
                RequestView::SetChatNotificationSettings {
                    chat_id: *chat_id,
                    notification_settings: *notification_settings,
                    extra: extra@,
                },
            Request::GetMe { extra } => RequestView::GetMe { extra: extra@ },
            Request::GetUser { user_id, extra } => RequestView::GetUser { user_id: *user_id, extra: extra@ },
            Request::DownloadFile { file_id, priority, extra } => RequestView::DownloadFile {
                file_id: *file_id,
                priority: *priority,
                extra: extra@,
            },
            Request::GetChatHistory { chat_id, from_message_id, limit, extra } => RequestView::GetChatHistory {
                chat_id: *chat_id,
                from_message_id: *from_message_id,
                limit: *limit,
                extra: extra@,
            },
            Request::OpenChat { chat_id, extra } => RequestView::OpenChat { chat_id: *chat_id, extra: extra@ },
            Request::CloseChat { chat_id, extra } => RequestView::CloseChat { chat_id: *chat_id, extra: extra@ },
            Request::ViewMessages { chat_id, message_ids, extra } => RequestView::ViewMessages {
                chat_id: *chat_id,
                message_ids: message_ids@,
                extra: extra@,
            },
            Request::ToggleChatIsMarkedAsUnread { chat_id, is_marked_as_unread, extra } =>
                RequestView::ToggleChatIsMarkedAsUnread {
                    chat_id: *chat_id,
                    is_marked_as_unread: *is_marked_as_unread,
                    extra: extra@,
                },
            Request::SendMessage { chat_id, text, extra } => RequestView::SendMessage {
                chat_id: *chat_id,
                text: text@,
                extra: extra@,
            },
            Request::SearchChats { query, limit, extra } => RequestView::SearchChats {
                query: query@,
                limit: *limit,
                extra: extra@,
            },
            Request::SearchChatsOnServer { query, limit, extra } => RequestView::SearchChatsOnServer {
                query: query@,
                limit: *limit,
                extra: extra@,
            },
            Request::SearchPublicChats { query, extra } => RequestView::SearchPublicChats {
                query: query@,
                extra: extra@,
            },
            Request::GetContacts { extra } => RequestView::GetContacts { extra: extra@ },
            Request::CreatePrivateChat { user_id, extra } => RequestView::CreatePrivateChat {
                user_id: *user_id,
                extra: extra@,
            },
        }
    }
}

impl Request {
    /// The TDLib `@type` of this request.
    pub fn td_type(&self) -> (t: &'static str)
        ensures
            t@ == request_type(*self),
    {
        match self {
            Request::SetTdlibParameters(_) => "setTdlibParameters",
            Request::SetLogVerbosityLevel { .. } => "setLogVerbosityLevel",
            Request::GetOption { .. } => "getOption",
            Request::CheckDatabaseEncryptionKey { .. } => "checkDatabaseEncryptionKey",
            Request::GetChats { .. } => "getChats",
            Request::LoadChats { .. } => "loadChats",
            Request::GetChat { .. } => "getChat",
            Request::Close { .. } => "close",
            Request::GetScopeNotificationSettings { .. } => "getScopeNotificationSettings",
            Request::SetScopeNotificationSettings { .. } => "setScopeNotificationSettings",
            Request::SetChatNotificationSettings { .. } => "setChatNotificationSettings",
            Request::GetMe { .. } => "getMe",
            Request::GetUser { .. } => "getUser",
            Request::DownloadFile { .. } => "downloadFile",
            Request::GetChatHistory { .. } => "getChatHistory",
            Request::OpenChat { .. } => "openChat",
            Request::CloseChat { .. } => "closeChat",
            Request::ViewMessages { .. } => "viewMessages",
            Request::ToggleChatIsMarkedAsUnread { .. } => "toggleChatIsMarkedAsUnread",
            Request::SendMessage { .. } => "sendMessage",
            Request::SearchChats { .. } => "searchChats",
            Request::SearchChatsOnServer { .. } => "searchChatsOnServer",
            Request::SearchPublicChats { .. } => "searchPublicChats",
            Request::GetContacts { .. } => "getContacts",
            Request::CreatePrivateChat { .. } => "createPrivateChat",
        }
    }
}

} // verus!
