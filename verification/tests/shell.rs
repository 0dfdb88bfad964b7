use mithka_tdlib::shell::{
    chat_list_items, clamp_i32, collapse_preview, completed_local_path, conversation_messages,
    conversation_title, file_id, folder_title, history_exhausted, links_in_formatted, main_list_order,
    merge_search_ids, message_snippet, note_search_done, oldest_message_id, open_message_ids,
    pick_full_size, pick_preview_size, plain_http_links, public_search_query, ranges_overlap,
    search_chats, search_generation, search_status, sender_label, status_for, unread_count,
    user_name, user_username, utf16_span, ChatItem, ChatPosition, EntityKind, MessageKind, PhotoSize,
    PositionList, StoredMessage, TextEntity,
};

#[test]
fn status_lines_name_the_state() {
    assert_eq!(status_for("authorizationStateReady"), "Ready");
    assert_eq!(status_for("authorizationStateWaitTdlibParameters"), "Starting TDLib…");
    assert_eq!(status_for("authorizationStateWaitPhoneNumber"), "WaitPhoneNumber");
    assert_eq!(status_for("authorizationStateauthorizationStateX"), "X");
    assert_eq!(status_for("other"), "other");
}

#[test]
fn public_search_takes_usernames_only() {
    assert_eq!(public_search_query("@Telegram"), Some("Telegram".to_string()));
    assert_eq!(public_search_query("  durov_1 "), Some("durov_1".to_string()));
    assert_eq!(public_search_query("ada"), None);
    assert_eq!(public_search_query("@ada"), Some("ada".to_string()));
    assert_eq!(public_search_query("hello world"), None);
    assert_eq!(public_search_query("@"), None);
    assert_eq!(public_search_query(""), None);
}

#[test]
fn search_status_counts_chats() {
    assert_eq!(search_status(1), "Search: 1 chat");
    assert_eq!(search_status(2), "Search: 2 chats");
    assert_eq!(search_status(0), "Search: 0 chats");
}

#[test]
fn search_generations_come_from_the_extra() {
    assert_eq!(search_generation("searchChats:7"), Some(7));
    assert_eq!(search_generation("searchChatsOnServer:12"), Some(12));
    assert_eq!(search_generation("searchPublicChats:+3"), Some(3));
    assert_eq!(search_generation("searchChats:"), None);
    assert_eq!(search_generation("searchChats:18446744073709551616"), None);
    assert_eq!(search_generation("getChats"), None);
}

#[test]
fn previews_collapse_whitespace_and_cut() {
    assert_eq!(collapse_preview("Hello\nfrom  Alpha "), "Hello from Alpha");
    let long = "word ".repeat(30);
    let cut = collapse_preview(&long);
    assert_eq!(cut.chars().count(), 81);
    assert!(cut.ends_with('…'));
    assert_eq!(message_snippet("messageText", "Hello\nfrom Alpha"), "Hello from Alpha");
    assert_eq!(message_snippet("messagePhoto", "  "), "Photo");
    assert_eq!(message_snippet("messagePhoto", "Pier"), "Pier");
    assert_eq!(message_snippet("messageVideoNote", ""), "Video");
    assert_eq!(message_snippet("messageSticker", ""), "Sticker");
    assert_eq!(message_snippet("messageUnsupported", "x"), "");
}

#[test]
fn names_and_usernames() {
    assert_eq!(user_name(" Ada ", " Lovelace "), "Ada Lovelace");
    assert_eq!(user_name("", "Lovelace"), "Lovelace");
    assert_eq!(user_name("Ada", " "), "Ada");
    assert_eq!(user_username(Some(" @ada "), Some("other"), None), "ada");
    assert_eq!(user_username(Some("  "), Some("@@edit"), Some("legacy")), "edit");
    assert_eq!(user_username(None, None, Some("legacy")), "legacy");
    assert_eq!(user_username(None, None, None), "");
}

#[test]
fn small_helpers() {
    assert!(ranges_overlap(0, 5, 4, 8));
    assert!(!ranges_overlap(0, 5, 5, 8));
    assert_eq!(clamp_i32(-3), 0);
    assert_eq!(clamp_i32(i64::MAX), i32::MAX);
    assert_eq!(clamp_i32(320), 320);
    let chat = ChatItem::empty(9);
    assert_eq!(chat.title, "…");
    assert_eq!(chat.order, 0);
}


fn chat(id: i64, title: &str, order: i64) -> ChatItem {
    let mut c = ChatItem::empty(id);
    c.title = title.to_string();
    c.order = order;
    c.real_order = order != 0;
    c
}

#[test]
fn chat_rows_follow_last_activity_order() {
    let chats = vec![chat(1, "Older", 10), chat(2, "Newer", 50)];
    let items = chat_list_items(&chats, &[1, 2], &[], None, 20);
    assert_eq!(items[0].title, "Newer");
    assert_eq!(items[1].title, "Older");
    let tied = vec![chat(3, "Three", 5), chat(4, "Four", 5), chat(5, "…", 0), chat(6, "Six", 1)];
    let items = chat_list_items(&tied, &[3, 4, 5, 6, 7], &[], None, 2);
    let ids: Vec<i64> = items.iter().map(|c| c.id).collect();
    assert_eq!(ids, vec![4, 3]);
}

#[test]
fn folder_rows_use_the_folder_order_and_skip_untitled_chats() {
    let chats = vec![chat(1, "Alpha", 100), chat(2, "Beta", 0), chat(3, "…", 0)];
    let orders = vec![(1, vec![(7, 5)]), (2, vec![(7, 9), (8, 1)]), (3, vec![(7, 50)]), (4, vec![(7, 60)])];
    let items = chat_list_items(&chats, &[1], &orders, Some(7), 20);
    let rows: Vec<(i64, i64)> = items.iter().map(|c| (c.id, c.order)).collect();
    assert_eq!(rows, vec![(2, 9), (1, 5)]);
    assert!(chat_list_items(&chats, &[1], &orders, Some(99), 20).is_empty());
}

fn stored(sender: Option<i64>, text: &str, date: i64, outgoing: bool) -> StoredMessage {
    StoredMessage {
        sender_id: sender,
        sender_chat: None,
        outgoing,
        text: text.to_string(),
        date,
        kind: MessageKind::Text,
        photo: None,
        photo_full: None,
        photo_full_width: 0,
        photo_full_height: 0,
        links: Vec::new(),
    }
}

#[test]
fn transcript_is_oldest_first_with_receipts() {
    let bucket = vec![
        (2, stored(Some(7), "Later", 200, false)),
        (1, stored(Some(9), "Earlier\nline", 100, false)),
        (12, stored(None, "Waiting", 150, true)),
        (10, stored(None, "Seen", 150, true)),
    ];
    let users = vec![(7, "Ada".to_string())];
    let chats = vec![chat(5, "Ada", 1)];
    let messages = conversation_messages(5, &bucket, 10, Some(42), &users, &chats);
    let texts: Vec<&str> = messages.iter().map(|m| m.text.as_str()).collect();
    assert_eq!(texts, vec!["Earlier\nline", "Seen", "Waiting", "Later"]);
    assert_eq!(messages[0].sender, "User 9");
    assert_eq!(messages[3].sender, "Ada");
    assert_eq!(messages[1].sender, "You");
    assert!(messages[1].read);
    assert!(!messages[2].read);
    assert!(!messages[0].read);
    assert_eq!(conversation_title(5, &chats), "Ada");
    assert_eq!(conversation_title(6, &chats), "Chat 6");
}

#[test]
fn sender_labels() {
    let chats = vec![chat(-100, "Channel", 1), chat(-200, "…", 0)];
    let mut m = stored(Some(42), "x", 1, false);
    assert_eq!(sender_label(&m, Some(42), &[], &chats), "You");
    m.sender_id = None;
    m.sender_chat = Some(-100);
    assert_eq!(sender_label(&m, None, &[], &chats), "Channel");
    m.sender_chat = Some(-200);
    assert_eq!(sender_label(&m, None, &[], &chats), "Chat -200");
    m.sender_chat = None;
    assert_eq!(sender_label(&m, None, &[], &chats), "Unknown");
}

#[test]
fn search_hits_are_unique_in_arrival_order() {
    let chats = vec![chat(11, "Alpha", 1)];
    let mut ids = Vec::new();
    let missing = merge_search_ids(&mut ids, &[11, 42, 11], &chats);
    assert_eq!(ids, vec![11, 42]);
    assert_eq!(missing, vec![42]);
    let missing = merge_search_ids(&mut ids, &[42, 43], &chats);
    assert_eq!(ids, vec![11, 42, 43]);
    assert_eq!(missing, vec![43]);
    let rows = search_chats(&ids, &chats);
    assert_eq!(rows.len(), 1);
    assert_eq!(rows[0].id, 11);
    let mut pending = 2;
    assert!(!note_search_done(1, 1, &mut pending, false));
    assert!(note_search_done(1, 1, &mut pending, false));
    assert!(!note_search_done(0, 1, &mut pending, false));
    let mut pending = 1;
    assert!(!note_search_done(3, 3, &mut pending, true));
}

#[test]
fn history_ids_and_pages() {
    let ids: Vec<i64> = (0..150).rev().collect();
    let view = open_message_ids(&ids);
    assert_eq!(view.len(), 100);
    assert_eq!(view[0], 50);
    assert_eq!(view[99], 149);
    assert_eq!(open_message_ids(&[5, 3, 4]), vec![3, 4, 5]);
    assert_eq!(oldest_message_id(&[20, 10, 40]), Some(10));
    assert_eq!(oldest_message_id(&[]), None);
    assert!(history_exhausted(Some(0), &[], true));
    assert!(!history_exhausted(Some(0), &[], false));
    assert!(history_exhausted(Some(10), &[10, 20], false));
    assert!(!history_exhausted(Some(10), &[5], false));
    assert!(!history_exhausted(None, &[], true));
}

fn size(kind: &str, w: Option<i64>, h: Option<i64>) -> PhotoSize {
    PhotoSize { kind: kind.to_string(), width: w, height: h }
}

#[test]
fn photo_sizes_pick_preview_and_largest() {
    let sizes = vec![
        size("i", Some(5000), Some(5000)),
        size("s", Some(100), Some(67)),
        size("m", Some(320), Some(214)),
        size("y", Some(1280), Some(854)),
        size("w", Some(2560), Some(1706)),
    ];
    assert_eq!(pick_preview_size(&sizes), Some(2));
    assert_eq!(pick_full_size(&sizes), Some(4));
    let bare = vec![size("m", None, None), size("x", None, None), size("w", None, None)];
    assert_eq!(pick_preview_size(&bare), Some(0));
    assert_eq!(pick_full_size(&bare), Some(2));
    let only_stripped = vec![size("i", Some(1), Some(1))];
    assert_eq!(pick_full_size(&only_stripped), Some(0));
    assert_eq!(pick_preview_size(&[]), None);
    let equal = vec![size("q", Some(2), Some(2)), size("r", Some(2), Some(2))];
    assert_eq!(pick_full_size(&equal), Some(1));
}

#[test]
fn entity_and_bare_links() {
    let body = "hi 😀 see https://example.com/a and docs.";
    let emoji_units = "hi 😀 see ".encode_utf16().count();
    let url = "https://example.com/a";
    let entities = vec![TextEntity {
        offset: (emoji_units + url.encode_utf16().count() + " and ".encode_utf16().count()) as i64,
        length: "docs".encode_utf16().count() as i64,
        kind: EntityKind::TextUrl("https://example.com/docs".to_string()),
    }];
    let links = links_in_formatted(body, &entities);
    assert_eq!(links.len(), 2);
    assert_eq!(links[0].url, "https://example.com/a");
    assert_eq!(&body[links[0].start..links[0].end], url);
    assert_eq!(links[1].url, "https://example.com/docs");
    assert_eq!(&body[links[1].start..links[1].end], "docs");
}

#[test]
fn bare_links_drop_trailing_punctuation() {
    let text = "see (https://a.example/x). and http://b.example!";
    let links = plain_http_links(text);
    let urls: Vec<&str> = links.iter().map(|l| l.url.as_str()).collect();
    assert_eq!(urls, vec!["https://a.example/x", "http://b.example"]);
    for link in &links {
        assert_eq!(&text[link.start..link.end], link.url);
    }
    assert!(plain_http_links("http:// nothing").is_empty());
    assert_eq!(utf16_span("😀ab", 2, 1), Some((4, 5)));
    assert_eq!(utf16_span("ab", 0, 0), None);
    assert_eq!(utf16_span("ab", 5, 1), None);
}

#[test]
fn entity_links_cover_bare_urls() {
    let text = "https://x.example/path";
    let entities = vec![
        TextEntity { offset: 0, length: 22, kind: EntityKind::Url },
        TextEntity { offset: 0, length: 5, kind: EntityKind::Other },
    ];
    let links = links_in_formatted(text, &entities);
    assert_eq!(links.len(), 1);
    assert_eq!(links[0].url, text);
}

#[test]
fn small_file_and_position_helpers() {
    assert_eq!(completed_local_path(true, "  /tmp/a.png "), Some("/tmp/a.png".to_string()));
    assert_eq!(completed_local_path(false, "/tmp/a.png"), None);
    assert_eq!(completed_local_path(true, "  "), None);
    assert_eq!(file_id(5), Some(5));
    assert_eq!(file_id(0), None);
    assert_eq!(file_id(i64::from(i32::MAX) + 1), None);
    assert_eq!(unread_count(Some(-4)), 0);
    assert_eq!(unread_count(None), 0);
    assert_eq!(unread_count(Some(3)), 3);
    let positions = vec![
        ChatPosition { list: PositionList::Folder(2), order: Some(7) },
        ChatPosition { list: PositionList::Main, order: Some(10) },
        ChatPosition { list: PositionList::Main, order: Some(99) },
    ];
    assert_eq!(main_list_order(&positions), Some(10));
    assert_eq!(main_list_order(&[]), None);
    assert_eq!(folder_title(&[None, Some(String::new()), Some("Work".to_string())], 3), "Work");
    assert_eq!(folder_title(&[None], 3), "Folder 3");
}
