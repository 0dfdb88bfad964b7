use mithka_tdlib::chats::{ChatInfo, LastMessage};
use mithka_tdlib::contacts::UserInfo;
use mithka_tdlib::desktop::{close_wait, ChatObject, IncomingMessage, ShellEffect, UserObject, VisibleContent};
use mithka_tdlib::driver::SessionConfig;
use mithka_tdlib::files::FileRef;
use mithka_tdlib::messages::MessageContent;
use mithka_tdlib::request::{ChatList, Request};
use mithka_tdlib::shell::{
    clamp_i32, folder_title, links_in_formatted, message_snippet, pick_full_size, pick_preview_size, user_name,
    user_username, ChatItem, ChatPosition, EntityKind, MessageKind, PhotoSize, PositionList, Shell, ShellCommand,
    ShellEvent, TextEntity, TextMessage, UiUpdate, HISTORY_LIMIT,
};

fn cfg() -> SessionConfig {
    SessionConfig {
        database_directory: "/tmp/mithka-copy/tdlib".into(),
        files_directory: "/tmp/mithka-copy/tdlib/files".into(),
        api_id: 100,
        api_hash: "unit-test-hash-not-a-secret".into(),
        device_model: "Android".into(),
        system_language_code: "en".into(),
        system_version: "Linux".into(),
        application_version: "mithka-gtk/0.1.0".into(),
        chat_limit: 20,
    }
}

fn drive(shell: &mut Shell, event: ShellEvent) -> ShellEffect {
    shell.on_event(event)
}

fn auth(state: &str) -> ShellEvent {
    ShellEvent::AuthorizationState { state: state.into(), is_encrypted: false }
}

fn ready(shell: &mut Shell) {
    drive(shell, auth("authorizationStateWaitTdlibParameters"));
    drive(shell, auth("authorizationStateReady"));
}

fn info(id: i64, title: &str) -> ChatInfo {
    ChatInfo {
        id,
        title: Some(title.into()),
        unread_count: None,
        marked_unread: None,
        last_message: LastMessage::Missing,
        photo_null: false,
        positions: None,
    }
}

fn chat_event(extra: &str, info: ChatInfo) -> ShellEvent {
    ShellEvent::Chat {
        extra: extra.into(),
        chat: Some(ChatObject { info, last_read_outbox: None, small_photo: None }),
    }
}

fn new_chat(id: i64, title: &str) -> ShellEvent {
    chat_event("", info(id, title))
}

fn main_at(order: i64) -> ChatPosition {
    ChatPosition { list: PositionList::Main, order: Some(order) }
}

fn pending_file(id: i32) -> FileRef {
    FileRef { id: Some(id), completed: None, can_download: Some(true) }
}

fn finished_file(id: i32, path: &str) -> FileRef {
    FileRef { id: Some(id), completed: Some(path.into()), can_download: None }
}

fn chats_reply(extra: &str, ids: &[i64]) -> ShellEvent {
    ShellEvent::Chats { extra: extra.into(), chat_ids: ids.to_vec() }
}

fn text_content(body: &str, entities: &[TextEntity]) -> VisibleContent {
    VisibleContent {
        content: MessageContent {
            kind: MessageKind::Text,
            text: body.into(),
            photo: None,
            photo_full: None,
            photo_full_width: 0,
            photo_full_height: 0,
            links: links_in_formatted(body, entities),
        },
        preview_file: None,
        full_file: None,
    }
}

/// A `messagePhoto`: sizes as (type, width, height, file id), files not
/// downloaded yet.
fn photo_content(caption: &str, sizes: &[(&str, Option<i64>, Option<i64>, i32)]) -> VisibleContent {
    let typed: Vec<PhotoSize> =
        sizes.iter().map(|(kind, width, height, _)| PhotoSize { kind: kind.to_string(), width: *width, height: *height }).collect();
    let preview = pick_preview_size(&typed).map(|i| pending_file(sizes[i].3));
    let full = pick_full_size(&typed);
    VisibleContent {
        content: MessageContent {
            kind: MessageKind::Photo,
            text: caption.into(),
            photo: None,
            photo_full: None,
            photo_full_width: full.and_then(|i| sizes[i].1).map(clamp_i32).unwrap_or(0),
            photo_full_height: full.and_then(|i| sizes[i].2).map(clamp_i32).unwrap_or(0),
            links: links_in_formatted(caption, &[]),
        },
        preview_file: preview,
        full_file: full.map(|i| pending_file(sizes[i].3)),
    }
}

fn message(id: i64, chat_id: i64, date: i64, sender: Option<i64>, outgoing: bool, content: VisibleContent) -> IncomingMessage {
    IncomingMessage {
        is_message: true,
        chat_id: Some(chat_id),
        id: Some(id),
        content: Some(content),
        date,
        sender_user: sender,
        sender_chat: None,
        outgoing,
        any_sender_user: sender,
    }
}

fn messages(extra: &str, list: Vec<IncomingMessage>) -> ShellEvent {
    ShellEvent::Messages { extra: extra.into(), messages: Some(list) }
}

fn list_items(effect: &ShellEffect) -> &Vec<ChatItem> {
    let UiUpdate::ChatList(items) = effect.ui.iter().find(|update| matches!(update, UiUpdate::ChatList(_))).unwrap()
    else {
        panic!("missing list");
    };
    items
}

fn conversation_messages(effect: &ShellEffect) -> &[TextMessage] {
    effect
        .ui
        .iter()
        .find_map(|update| match update {
            UiUpdate::Conversation { messages, .. } => Some(messages.as_slice()),
            _ => None,
        })
        .expect("missing conversation")
}

fn downloads(effect: &ShellEffect) -> Vec<i32> {
    effect
        .send
        .iter()
        .filter_map(|request| match request {
            Request::DownloadFile { file_id, .. } => Some(*file_id),
            _ => None,
        })
        .collect()
}

fn types(effect: &ShellEffect) -> Vec<&'static str> {
    effect.send.iter().map(|request| request.td_type()).collect()
}

#[test]
fn parameters_keep_the_empty_mithka_key() {
    let mut shell = Shell::new(cfg());
    let effect = drive(&mut shell, auth("authorizationStateWaitTdlibParameters"));
    let Request::SetTdlibParameters(p) = &effect.send[0] else {
        panic!("missing parameters");
    };
    assert_eq!(p.database_encryption_key, "");
    assert!(!p.use_test_dc);
    assert_eq!(p.device_model, "Android");
    assert!(p.use_secret_chats);
    let text = format!("{:?}", effect.ui);
    assert!(!text.contains("unit-test-hash-not-a-secret"));
}

#[test]
fn chat_list_follows_last_activity_order() {
    let mut shell = Shell::new(cfg());
    ready(&mut shell);
    drive(&mut shell, chat_event("", ChatInfo { positions: Some(vec![main_at(10)]), ..info(1, "Older") }));
    let effect = drive(&mut shell, chat_event("", ChatInfo { positions: Some(vec![main_at(50)]), ..info(2, "Newer") }));
    let items = list_items(&effect);
    assert_eq!(items[0].title, "Newer");
    assert_eq!(items[1].title, "Older");
}

#[test]
fn unread_badge_and_avatar_follow_chat_and_file_updates() {
    let mut shell = Shell::new(cfg());
    ready(&mut shell);
    let effect = drive(
        &mut shell,
        ShellEvent::Chat {
            extra: String::new(),
            chat: Some(ChatObject {
                info: ChatInfo { unread_count: Some(4), marked_unread: Some(false), ..info(1, "Alpha") },
                last_read_outbox: None,
                small_photo: Some(pending_file(11)),
            }),
        },
    );
    assert_eq!(effect.send[0].td_type(), "downloadFile");
    assert!(matches!(effect.send[0], Request::DownloadFile { file_id: 11, .. }));
    let items = list_items(&effect);
    assert_eq!(items[0].unread, 4);
    assert!(items[0].avatar.is_none());

    let effect = drive(&mut shell, ShellEvent::File(finished_file(11, "/tmp/mithka-stub-avatar.png")));
    assert_eq!(list_items(&effect)[0].avatar.as_deref(), Some("/tmp/mithka-stub-avatar.png"));

    let effect = drive(&mut shell, ShellEvent::ReadInbox { chat_id: Some(1), unread_count: Some(0) });
    assert_eq!(list_items(&effect)[0].unread, 0);

    let effect = drive(&mut shell, ShellEvent::MarkedUnread { chat_id: Some(1), marked: true });
    assert!(list_items(&effect)[0].marked_unread);

    let effect = drive(&mut shell, new_chat(2, "Beta"));
    let beta = list_items(&effect).iter().find(|chat| chat.id == 2).unwrap();
    assert_eq!(beta.unread, 0);
    assert!(beta.avatar.is_none());
    assert!(effect.send.is_empty());
}

#[test]
fn startup_waits_for_update_chat_folders_and_does_not_call_get_chat_folders() {
    let mut shell = Shell::new(cfg());
    let steps = vec![
        auth("authorizationStateWaitTdlibParameters"),
        auth("authorizationStateReady"),
        chats_reply("getChats", &[1, 2]),
        chat_event("", info(2, "Beta")),
    ];
    for event in steps {
        let effect = drive(&mut shell, event);
        assert!(!types(&effect).contains(&"getChatFolders"), "TDLib 1.8.67 has no getChatFolders");
    }
    let work = folder_title(&[None, Some("Work".to_string()), None, None], 2);
    let effect = drive(&mut shell, ShellEvent::Folders(vec![mithka_tdlib::shell::FolderItem { id: 2, title: work }]));
    let UiUpdate::Folders(folders) = effect.ui.iter().find(|update| matches!(update, UiUpdate::Folders(_))).unwrap()
    else {
        panic!("missing folders");
    };
    assert_eq!(folders[0].title, "Work");
    assert!(effect.send.is_empty());
}

#[test]
fn folder_filter_keeps_main_list_and_requests_that_folder() {
    let mut shell = Shell::new(cfg());
    ready(&mut shell);
    drive(&mut shell, chat_event("", ChatInfo { positions: Some(vec![main_at(10)]), ..info(1, "Alpha") }));
    drive(
        &mut shell,
        chat_event(
            "",
            ChatInfo {
                positions: Some(vec![main_at(40), ChatPosition { list: PositionList::Folder(2), order: Some(5) }]),
                ..info(2, "Beta")
            },
        ),
    );
    let effect = drive(
        &mut shell,
        ShellEvent::Folders(vec![
            mithka_tdlib::shell::FolderItem { id: 2, title: folder_title(&[Some("Work".to_string()), None, None, None], 2) },
            mithka_tdlib::shell::FolderItem {
                id: 3,
                title: folder_title(&[None, Some("Personal".to_string()), None, None], 3),
            },
        ]),
    );
    let UiUpdate::Folders(folders) = effect.ui.iter().find(|u| matches!(u, UiUpdate::Folders(_))).unwrap() else {
        panic!("missing folders");
    };
    assert_eq!(folders[0].title, "Work");
    assert_eq!(folders[1].title, "Personal");

    let effect = shell.on_command(ShellCommand::SelectFolder(Some(2)));
    assert!(matches!(effect.send[0], Request::LoadChats { chat_list: ChatList::Folder(2), .. }));
    assert_eq!(effect.send[1].td_type(), "getChats");
    assert!(matches!(effect.send[1], Request::GetChats { chat_list: ChatList::Folder(_), .. }));
    let items = list_items(&effect);
    assert_eq!(items.len(), 1);
    assert_eq!(items[0].title, "Beta");

    let effect = shell.on_command(ShellCommand::SelectFolder(None));
    assert!(effect.send.is_empty());
    let items = list_items(&effect);
    assert_eq!(items[0].title, "Beta");
    assert_eq!(items[1].title, "Alpha");
}

#[test]
fn history_keeps_text_and_orders_oldest_first() {
    let mut shell = Shell::new(cfg());
    ready(&mut shell);
    drive(&mut shell, new_chat(5, "Ada"));
    drive(
        &mut shell,
        ShellEvent::User {
            extra: "getMe".into(),
            user: Some(UserObject {
                info: UserInfo { id: 7, name: String::new(), username: String::new(), is_contact: None, photo_null: false },
                small_photo: None,
            }),
        },
    );
    let effect = shell.on_command(ShellCommand::SelectChat(5));
    assert!(effect.send.iter().any(|request| matches!(request, Request::OpenChat { chat_id: 5, .. })));
    let history = effect.send.iter().find(|request| request.td_type() == "getChatHistory").unwrap();
    assert!(matches!(history, Request::GetChatHistory { from_message_id: 0, .. }));
    assert!(!types(&effect).iter().any(|t| *t == "logOut" || *t == "getChatFolders"));
    let effect = drive(
        &mut shell,
        messages(
            "",
            vec![
                message(2, 5, 200, Some(7), false, text_content("Later", &[])),
                message(1, 5, 100, Some(9), false, text_content("Earlier\nline", &[])),
                message(3, 5, 150, None, false, photo_content("", &[])),
            ],
        ),
    );
    let messages = conversation_messages(&effect);
    assert_eq!(messages.len(), 3);
    assert_eq!(messages[0].text, "Earlier\nline");
    assert_eq!(messages[0].kind, MessageKind::Text);
    assert_eq!(messages[0].sender, "User 9");
    assert_eq!(messages[1].kind, MessageKind::Photo);
    assert!(messages[1].photo.is_none());
    assert_eq!(messages[1].text, "");
    assert_eq!(messages[2].text, "Later");
    assert_eq!(messages[2].sender, "You");
    assert!(!messages[2].outgoing);
    assert!(!messages[2].read);
}

#[test]
fn outgoing_receipts_follow_last_read_outbox() {
    let mut shell = Shell::new(cfg());
    ready(&mut shell);
    drive(
        &mut shell,
        ShellEvent::Chat {
            extra: String::new(),
            chat: Some(ChatObject { info: info(5, "Ada"), last_read_outbox: Some(10), small_photo: None }),
        },
    );
    shell.on_command(ShellCommand::SelectChat(5));
    let effect = drive(
        &mut shell,
        messages(
            "",
            vec![
                message(10, 5, 1, None, true, text_content("Seen", &[])),
                message(12, 5, 2, None, true, text_content("Waiting", &[])),
                message(9, 5, 3, None, false, text_content("In", &[])),
            ],
        ),
    );
    let messages = conversation_messages(&effect);
    let seen = messages.iter().find(|message| message.id == 10).unwrap();
    let waiting = messages.iter().find(|message| message.id == 12).unwrap();
    let incoming = messages.iter().find(|message| message.id == 9).unwrap();
    assert!(seen.outgoing && seen.read);
    assert!(waiting.outgoing && !waiting.read);
    assert!(!incoming.outgoing && !incoming.read);
    assert!(!types(&effect).iter().any(|t| *t == "getMessageViewers" || *t == "toggleChatIsPinned"));

    let effect = drive(&mut shell, ShellEvent::ReadOutbox { chat_id: Some(5), message_id: Some(12) });
    let messages = conversation_messages(&effect);
    assert!(messages.iter().any(|message| message.id == 12 && message.read));
    assert!(messages.iter().any(|message| message.id == 10 && message.read));
}

#[test]
fn photo_message_downloads_then_keeps_the_local_path() {
    let mut shell = Shell::new(cfg());
    ready(&mut shell);
    drive(&mut shell, new_chat(5, "Ada"));
    shell.on_command(ShellCommand::SelectChat(5));
    let effect = drive(
        &mut shell,
        messages("", vec![message(8, 5, 10, None, false, photo_content("Pier", &[("s", None, None, 1), ("m", None, None, 2)]))]),
    );
    assert_eq!(effect.send[0].td_type(), "downloadFile");
    assert!(matches!(effect.send[0], Request::DownloadFile { file_id: 2, .. }));
    let messages = conversation_messages(&effect);
    assert_eq!(messages[0].kind, MessageKind::Photo);
    assert_eq!(messages[0].text, "Pier");
    assert!(messages[0].photo.is_none());
    assert!(messages[0].photo_full.is_none());
    assert_eq!(downloads(&effect).len(), 1);

    let effect = drive(&mut shell, ShellEvent::File(finished_file(2, "/tmp/mithka-stub-photo.png")));
    let messages = conversation_messages(&effect);
    assert_eq!(messages[0].photo.as_deref(), Some("/tmp/mithka-stub-photo.png"));
    assert_eq!(messages[0].photo_full.as_deref(), Some("/tmp/mithka-stub-photo.png"));
}

#[test]
fn popup_downloads_the_largest_photo_size_and_keeps_the_preview() {
    let mut shell = Shell::new(cfg());
    ready(&mut shell);
    drive(&mut shell, new_chat(5, "Ada"));
    shell.on_command(ShellCommand::SelectChat(5));
    let effect = drive(
        &mut shell,
        messages(
            "",
            vec![message(
                8,
                5,
                10,
                None,
                false,
                photo_content(
                    "Pier",
                    &[
                        ("i", Some(5000), Some(5000), 3),
                        ("s", Some(100), Some(67), 1),
                        ("m", Some(320), Some(214), 2),
                        ("y", Some(1280), Some(854), 8),
                        ("w", Some(2560), Some(1706), 9),
                    ],
                ),
            )],
        ),
    );
    assert_eq!(downloads(&effect), vec![2, 9]);
    let messages = conversation_messages(&effect);
    assert_eq!(messages[0].photo_full_width, 2560);
    assert_eq!(messages[0].photo_full_height, 1706);
    assert!(messages[0].photo.is_none());
    assert!(messages[0].photo_full.is_none());

    let effect = drive(&mut shell, ShellEvent::File(finished_file(2, "/tmp/preview.png")));
    let messages = conversation_messages(&effect);
    assert_eq!(messages[0].photo.as_deref(), Some("/tmp/preview.png"));
    assert!(messages[0].photo_full.is_none());

    let effect = drive(&mut shell, ShellEvent::File(finished_file(9, "/tmp/full.png")));
    let messages = conversation_messages(&effect);
    assert_eq!(messages[0].photo.as_deref(), Some("/tmp/preview.png"));
    assert_eq!(messages[0].photo_full.as_deref(), Some("/tmp/full.png"));
    assert_eq!(messages[0].photo_full_width, 2560);
}

#[test]
fn popup_prefers_type_w_when_dimensions_are_missing() {
    let mut shell = Shell::new(cfg());
    ready(&mut shell);
    drive(&mut shell, new_chat(5, "Ada"));
    shell.on_command(ShellCommand::SelectChat(5));
    let effect = drive(
        &mut shell,
        messages(
            "",
            vec![message(8, 5, 10, None, false, photo_content("", &[("m", None, None, 2), ("x", None, None, 4), ("w", None, None, 9)]))],
        ),
    );
    assert_eq!(downloads(&effect), vec![2, 9]);
}

#[test]
fn send_is_plain_text_and_never_logs_out() {
    let mut shell = Shell::new(cfg());
    ready(&mut shell);
    let effect = shell.on_command(ShellCommand::SendText { chat_id: 5, text: "  hello  ".into() });
    assert_eq!(effect.send[0].td_type(), "sendMessage");
    let Request::SendMessage { text, .. } = &effect.send[0] else {
        panic!("missing sendMessage");
    };
    assert_eq!(text, "hello");
    assert_ne!(effect.send[0].td_type(), "logOut");
    let empty = shell.on_command(ShellCommand::SendText { chat_id: 5, text: "   ".into() });
    assert!(empty.send.is_empty());
}

#[test]
fn logged_out_session_sets_a_status_and_does_not_ask_for_a_phone() {
    let mut shell = Shell::new(cfg());
    let effect = drive(&mut shell, auth("authorizationStateWaitPhoneNumber"));
    let text = format!("{:?}", effect.ui);
    assert!(text.contains("does not ask"));
    assert!(effect.send.is_empty());
    assert!(!text.contains("setAuthenticationPhoneNumber"));
}

#[test]
fn encryption_error_is_visible() {
    let mut shell = Shell::new(cfg());
    let effect = drive(
        &mut shell,
        ShellEvent::Error {
            code: 401,
            message: "Wrong database encryption key".into(),
            extra: "setTdlibParameters".into(),
        },
    );
    assert!(effect
        .ui
        .iter()
        .any(|update| matches!(update, UiUpdate::Fatal(text) if text.contains("401") && text.contains("empty"))));
    assert_eq!(effect.send[0].td_type(), "close");
}

#[test]
fn last_message_preview_follows_the_chat_and_later_updates() {
    let mut shell = Shell::new(cfg());
    ready(&mut shell);
    let effect = drive(
        &mut shell,
        chat_event(
            "",
            ChatInfo {
                unread_count: Some(2),
                last_message: LastMessage::Snippet(message_snippet("messageText", "Hello\nfrom Alpha"), 1700000000),
                ..info(1, "Alpha")
            },
        ),
    );
    let items = list_items(&effect);
    assert_eq!(items[0].preview, "Hello from Alpha");
    assert_eq!(items[0].preview_date, 1700000000);
    assert_eq!(items[0].unread, 2);

    let effect = drive(
        &mut shell,
        ShellEvent::LastMessage {
            chat_id: Some(1),
            last_message: LastMessage::Snippet(message_snippet("messagePhoto", ""), 1700001111),
            positions: vec![main_at(80)],
        },
    );
    let items = list_items(&effect);
    assert_eq!(items[0].preview, "Photo");
    assert_eq!(items[0].preview_date, 1700001111);
    assert_eq!(items[0].order, 80);
}

#[test]
fn opening_a_chat_marks_it_read_after_history_syncs() {
    let mut shell = Shell::new(cfg());
    ready(&mut shell);
    drive(
        &mut shell,
        chat_event(
            "",
            ChatInfo {
                unread_count: Some(3),
                marked_unread: Some(true),
                positions: Some(vec![main_at(20)]),
                ..info(1, "Alpha")
            },
        ),
    );
    drive(&mut shell, chat_event("", ChatInfo { positions: Some(vec![main_at(10)]), ..info(2, "Beta") }));
    let effect = shell.on_command(ShellCommand::SelectChat(1));
    assert!(effect.send.iter().any(|request| matches!(request, Request::OpenChat { chat_id: 1, .. })));
    assert!(effect.send.iter().any(|request| matches!(
        request,
        Request::ToggleChatIsMarkedAsUnread { chat_id: 1, is_marked_as_unread: false, .. }
    )));
    assert!(effect
        .send
        .iter()
        .any(|request| matches!(request, Request::GetChatHistory { chat_id: 1, from_message_id: 0, .. })));
    assert!(!types(&effect).iter().any(|t| *t == "closeChat" || *t == "logOut"));

    let effect = drive(
        &mut shell,
        messages(
            "history:1",
            vec![
                message(12, 1, 20, None, false, text_content("New", &[])),
                message(11, 1, 10, None, false, text_content("Old", &[])),
            ],
        ),
    );
    let view = effect.send.iter().find(|request| request.td_type() == "viewMessages").unwrap();
    let Request::ViewMessages { chat_id, message_ids, .. } = view else {
        panic!("missing viewMessages");
    };
    assert_eq!(*chat_id, 1);
    assert_eq!(message_ids, &vec![11, 12]);

    let effect = drive(&mut shell, ShellEvent::ReadInbox { chat_id: Some(1), unread_count: Some(0) });
    assert_eq!(list_items(&effect)[0].unread, 0);

    let effect = shell.on_command(ShellCommand::SelectChat(2));
    assert!(effect.send.iter().any(|request| matches!(request, Request::CloseChat { chat_id: 1, .. })));
    assert!(effect.send.iter().any(|request| matches!(request, Request::OpenChat { chat_id: 2, .. })));
}

#[test]
fn load_older_history_anchors_on_the_oldest_id() {
    let mut shell = Shell::new(cfg());
    ready(&mut shell);
    drive(&mut shell, new_chat(5, "Ada"));
    shell.on_command(ShellCommand::SelectChat(5));
    drive(
        &mut shell,
        messages(
            "history:5",
            vec![
                message(20, 5, 200, None, false, text_content("Newer", &[])),
                message(10, 5, 100, None, false, text_content("Older", &[])),
            ],
        ),
    );
    let effect = shell.on_command(ShellCommand::LoadOlder { chat_id: 5 });
    assert_eq!(effect.send.len(), 1);
    assert_eq!(effect.send[0].td_type(), "getChatHistory");
    let Request::GetChatHistory { from_message_id, limit, .. } = &effect.send[0] else {
        panic!("missing getChatHistory");
    };
    assert_eq!(*from_message_id, 10);
    assert_eq!(*limit, HISTORY_LIMIT);
    assert!(shell.on_command(ShellCommand::LoadOlder { chat_id: 5 }).send.is_empty());

    drive(
        &mut shell,
        messages(
            "history:5",
            vec![
                message(10, 5, 100, None, false, text_content("Older", &[])),
                message(4, 5, 40, None, false, photo_content("Way back", &[])),
            ],
        ),
    );
    let effect = shell.on_command(ShellCommand::LoadOlder { chat_id: 5 });
    assert!(matches!(effect.send[0], Request::GetChatHistory { from_message_id: 4, .. }));

    drive(&mut shell, messages("history:5", vec![message(4, 5, 40, None, false, photo_content("Way back", &[]))]));
    assert!(shell.on_command(ShellCommand::LoadOlder { chat_id: 5 }).send.is_empty());
}

#[test]
fn text_links_use_entities_and_plain_urls() {
    let mut shell = Shell::new(cfg());
    ready(&mut shell);
    drive(&mut shell, new_chat(5, "Ada"));
    shell.on_command(ShellCommand::SelectChat(5));
    let body = "hi 😀 see https://example.com/a and docs.";
    let emoji_units = "hi 😀 see ".encode_utf16().count();
    let url = "https://example.com/a";
    let entity = TextEntity {
        offset: (emoji_units + url.encode_utf16().count() + " and ".encode_utf16().count()) as i64,
        length: "docs".encode_utf16().count() as i64,
        kind: EntityKind::TextUrl("https://example.com/docs".into()),
    };
    let effect = drive(&mut shell, messages("history:5", vec![message(3, 5, 10, None, false, text_content(body, &[entity]))]));
    let messages = conversation_messages(&effect);
    assert_eq!(messages[0].links.len(), 2);
    assert_eq!(messages[0].links[0].url, "https://example.com/a");
    assert_eq!(&body[messages[0].links[0].start..messages[0].links[0].end], url);
    assert_eq!(messages[0].links[1].url, "https://example.com/docs");
    assert_eq!(&body[messages[0].links[1].start..messages[0].links[1].end], "docs");
}

#[test]
fn search_uses_1_8_67_filters_and_merges_unique_chats() {
    let mut shell = Shell::new(cfg());
    ready(&mut shell);
    drive(&mut shell, new_chat(1, "Alpha"));

    let spaced = shell.on_command(ShellCommand::Search("hello world".into()));
    assert_eq!(types(&spaced), ["searchChats", "searchChatsOnServer"]);
    assert!(matches!(&spaced.send[0], Request::SearchChats { query, .. } if query == "hello world"));
    assert!(spaced.ui.iter().any(|update| matches!(update, UiUpdate::Status(text) if text == "Searching…")));

    let at = shell.on_command(ShellCommand::Search("@Telegram".into()));
    assert_eq!(types(&at), ["searchChats", "searchChatsOnServer", "searchPublicChats"]);
    assert!(matches!(&at.send[2], Request::SearchPublicChats { query, .. } if query == "Telegram"));
    let Request::SearchChats { extra, .. } = &at.send[0] else {
        panic!("missing searchChats");
    };
    let gen = extra.strip_prefix("searchChats:").unwrap().to_string();

    let local = drive(&mut shell, chats_reply(&format!("searchChats:{gen}"), &[1, 9]));
    assert_eq!(local.send[0].td_type(), "getChat");
    assert!(matches!(&local.send[0], Request::GetChat { extra, .. } if extra == "getChat:search:9"));
    assert!(local.ui.iter().any(
        |update| matches!(update, UiUpdate::SearchResults { chats, .. } if chats.iter().any(|chat| chat.id == 1))
    ));

    let server = drive(&mut shell, chats_reply(&format!("searchChatsOnServer:{gen}"), &[1, 9]));
    assert!(server.send.is_empty());

    drive(&mut shell, chat_event("getChat:search:9", info(9, "Public")));
    let public = drive(&mut shell, chats_reply(&format!("searchPublicChats:{gen}"), &[9, 11]));
    let UiUpdate::SearchResults { query, chats } =
        public.ui.iter().find(|update| matches!(update, UiUpdate::SearchResults { .. })).unwrap()
    else {
        panic!("missing search results");
    };
    assert_eq!(query, "@Telegram");
    assert_eq!(chats.iter().map(|chat| chat.id).collect::<Vec<_>>(), vec![1, 9]);
    assert!(public.ui.iter().any(|update| matches!(update, UiUpdate::Status(text) if text == "Search: 2 chats")));

    let stale = drive(&mut shell, chats_reply("searchChats:0", &[42]));
    assert!(stale.ui.is_empty());
    assert!(stale.send.is_empty());

    let cleared = shell.on_command(ShellCommand::Search("  ".into()));
    assert!(cleared.send.is_empty());
    assert!(cleared.ui.iter().any(
        |update| matches!(update, UiUpdate::SearchResults { query, chats } if query.is_empty() && chats.is_empty())
    ));
    assert!(cleared.ui.iter().any(|update| matches!(update, UiUpdate::Status(text) if text == "Ready")));
}

#[test]
fn search_hit_without_a_list_position_stays_out_of_all_chats() {
    let mut shell = Shell::new(cfg());
    ready(&mut shell);
    drive(&mut shell, chats_reply("getChats", &[1]));
    drive(&mut shell, chat_event("getChat:1", info(1, "Alpha")));
    let effect = shell.on_command(ShellCommand::Search("public".into()));
    let Request::SearchChats { extra, .. } = &effect.send[0] else {
        panic!("missing searchChats");
    };
    let gen = extra.strip_prefix("searchChats:").unwrap().to_string();
    drive(&mut shell, chats_reply(&format!("searchChats:{gen}"), &[77]));
    let effect = drive(&mut shell, chat_event("getChat:search:77", info(77, "Elsewhere")));
    let items = list_items(&effect);
    assert!(items.iter().all(|chat| chat.id != 77));
    assert!(items.iter().any(|chat| chat.id == 1));
    let UiUpdate::SearchResults { chats, .. } =
        effect.ui.iter().find(|update| matches!(update, UiUpdate::SearchResults { .. })).unwrap()
    else {
        panic!("missing search");
    };
    assert_eq!(chats[0].title, "Elsewhere");
}

#[test]
fn search_error_is_status_and_not_fatal() {
    let mut shell = Shell::new(cfg());
    ready(&mut shell);
    let effect = shell.on_command(ShellCommand::Search("ada".into()));
    let Request::SearchChats { extra, .. } = &effect.send[0] else {
        panic!("missing searchChats");
    };
    let gen = extra.strip_prefix("searchChats:").unwrap().to_string();
    let effect = drive(
        &mut shell,
        ShellEvent::Error {
            code: 400,
            message: "QUERY_TOO_SHORT".into(),
            extra: format!("searchChatsOnServer:{gen}"),
        },
    );
    assert!(!shell.failed());
    assert!(effect
        .ui
        .iter()
        .any(|update| matches!(update, UiUpdate::Status(text) if text.contains("400") && text.contains("QUERY_TOO_SHORT"))));
    assert!(!effect.ui.iter().any(|update| matches!(update, UiUpdate::Fatal(_))));
}

#[test]
fn contacts_follow_get_contacts_and_update_user() {
    let mut shell = Shell::new(cfg());
    ready(&mut shell);
    let effect = shell.on_command(ShellCommand::LoadContacts);
    assert_eq!(effect.send[0].td_type(), "getContacts");
    assert!(matches!(&effect.send[0], Request::GetContacts { extra } if extra == "getContacts"));

    let ada = |is_contact: bool, photo: Option<FileRef>| UserObject {
        info: UserInfo {
            id: 4,
            name: user_name("Ada", "Lovelace"),
            username: user_username(Some("ada"), Some("ada"), None),
            is_contact: Some(is_contact),
            photo_null: false,
        },
        small_photo: photo,
    };
    let effect = drive(&mut shell, ShellEvent::User { extra: String::new(), user: Some(ada(true, Some(pending_file(21)))) });
    assert_eq!(effect.send[0].td_type(), "downloadFile");
    assert!(matches!(effect.send[0], Request::DownloadFile { file_id: 21, .. }));

    let effect = drive(&mut shell, ShellEvent::Users { extra: "getContacts".into(), user_ids: vec![4] });
    assert!(effect.send.is_empty());
    let UiUpdate::Contacts(contacts) = effect.ui.iter().find(|update| matches!(update, UiUpdate::Contacts(_))).unwrap()
    else {
        panic!("missing contacts");
    };
    assert_eq!(contacts.len(), 1);
    assert_eq!(contacts[0].name, "Ada Lovelace");
    assert_eq!(contacts[0].username, "ada");

    let effect = drive(&mut shell, ShellEvent::User { extra: String::new(), user: Some(ada(false, None)) });
    let UiUpdate::Contacts(contacts) = effect.ui.iter().find(|update| matches!(update, UiUpdate::Contacts(_))).unwrap()
    else {
        panic!("missing contacts");
    };
    assert!(contacts.is_empty());

    let effect = drive(
        &mut shell,
        ShellEvent::Error { code: 401, message: "Unauthorized".into(), extra: "getContacts".into() },
    );
    assert!(!shell.failed());
    assert!(effect.ui.iter().any(|update| matches!(update, UiUpdate::Status(text) if text.contains("Contacts error 401"))));
}

#[test]
fn open_contact_creates_a_private_chat_then_selects_it() {
    let mut shell = Shell::new(cfg());
    ready(&mut shell);
    let effect = shell.on_command(ShellCommand::OpenContact(4));
    assert_eq!(effect.send[0].td_type(), "createPrivateChat");
    assert!(matches!(&effect.send[0], Request::CreatePrivateChat { user_id: 4, extra } if extra == "createPrivateChat:4"));

    let effect = drive(&mut shell, chat_event("createPrivateChat:4", info(80, "Ada Lovelace")));
    assert!(effect.send.iter().any(|request| matches!(request, Request::OpenChat { chat_id: 80, .. })));
    assert!(effect.ui.iter().any(|update| matches!(update, UiUpdate::OpenChat(80))));
    assert!(effect
        .ui
        .iter()
        .any(|update| matches!(update, UiUpdate::Conversation { chat_id: 80, title, .. } if title == "Ada Lovelace")));

    let effect = drive(
        &mut shell,
        ShellEvent::Error { code: 400, message: "User not found".into(), extra: "createPrivateChat:4".into() },
    );
    assert!(!shell.failed());
    assert!(effect.ui.iter().any(|update| matches!(update, UiUpdate::Status(text) if text.contains("User not found"))));
}

#[test]
fn closing_session_ignores_events_but_logs_real_errors() {
    let mut shell = Shell::new(cfg());
    ready(&mut shell);
    let effect = shell.on_command(ShellCommand::Close);
    assert_eq!(types(&effect), ["close"]);
    assert!(drive(&mut shell, new_chat(1, "Alpha")).ui.is_empty());
    assert!(drive(&mut shell, ShellEvent::Error { code: 406, message: "x".into(), extra: String::new() }).ui.is_empty());
    assert!(drive(&mut shell, ShellEvent::Error { code: 500, message: "Request aborted".into(), extra: String::new() })
        .ui
        .is_empty());
    let logged = drive(&mut shell, ShellEvent::Error { code: 500, message: "Boom".into(), extra: String::new() });
    assert!(matches!(&logged.ui[0], UiUpdate::Log(text) if text == "TDLib error 500: Boom"));
    assert!(shell.on_command(ShellCommand::Close).send.is_empty());
    drive(&mut shell, auth("authorizationStateClosed"));
    assert!(shell.finished());
    assert!(drive(&mut shell, auth("authorizationStateReady")).ui.is_empty());
}

#[test]
fn log_lines_naming_the_api_hash_stay_back() {
    assert!(!mithka_tdlib::desktop::is_forwarded(&UiUpdate::Log("api_hash: set (32 characters)".into())));
    assert!(mithka_tdlib::desktop::is_forwarded(&UiUpdate::Log("auth: authorizationStateReady".into())));
    assert!(mithka_tdlib::desktop::is_forwarded(&UiUpdate::Status("api_hash".into())));
    assert!(mithka_tdlib::desktop::is_forwarded(&UiUpdate::Ready));
}

#[test]
fn close_is_sent_once_and_a_finished_session_is_inert() {
    let mut shell = Shell::new(cfg());
    let first = shell.on_command(ShellCommand::Close);
    assert_eq!(first.send.len(), 1);
    assert!(matches!(first.send[0], Request::Close { .. }));
    assert!(shell.closing());
    let second = shell.on_command(ShellCommand::Close);
    assert!(second.send.is_empty());
    let closed = shell.on_event(ShellEvent::AuthorizationState { state: "authorizationStateClosed".into(), is_encrypted: false });
    assert!(closed.send.is_empty());
    assert!(shell.finished());
    let after = shell.on_event(ShellEvent::Accepted { extra: "loadChats".into() });
    assert!(after.send.is_empty() && after.ui.is_empty());
    let after = shell.on_command(ShellCommand::LoadContacts);
    assert!(after.send.is_empty() && after.ui.is_empty());
}

#[test]
fn the_window_gives_up_on_close_after_eight_seconds() {
    assert_eq!(close_wait(false, None, 5_000), (None, false));
    assert_eq!(close_wait(true, None, 5_000), (Some(5_000), false));
    assert_eq!(close_wait(true, Some(5_000), 13_000), (Some(5_000), false));
    assert_eq!(close_wait(true, Some(5_000), 13_001), (Some(5_000), true));
    assert_eq!(close_wait(false, Some(5_000), 20_000), (Some(5_000), true));
}
