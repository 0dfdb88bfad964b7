use mithka_tdlib::chats::{ChatInfo, ChatTable, LastMessage};
use mithka_tdlib::contacts::{ContactBook, UserInfo};
use mithka_tdlib::files::{apply_downloaded, photo_watches, FileRole, FileWatch, WatchStep};
use mithka_tdlib::messages::{same_message, MessageContent, MessageStore, PhotoSlot};
use mithka_tdlib::shell::{conversation_messages, MessageKind, StoredMessage, TextLink};

fn text(sender: i64, body: &str, date: i64) -> StoredMessage {
    StoredMessage {
        sender_id: Some(sender),
        sender_chat: None,
        outgoing: false,
        text: body.to_string(),
        date,
        kind: MessageKind::Text,
        photo: None,
        photo_full: None,
        photo_full_width: 0,
        photo_full_height: 0,
        links: Vec::new(),
    }
}

fn photo_content(caption: &str) -> MessageContent {
    MessageContent {
        kind: MessageKind::Photo,
        text: caption.to_string(),
        photo: None,
        photo_full: None,
        photo_full_width: 1280,
        photo_full_height: 960,
        links: Vec::new(),
    }
}

#[test]
fn remembered_messages_report_new_and_changed() {
    let mut store = MessageStore::new();
    assert!(!store.has_chat(1));
    assert_eq!(store.remember(1, 10, text(4, "hi", 100)), (true, true));
    assert_eq!(store.remember(1, 10, text(4, "hi", 100)), (false, false));
    assert_eq!(store.remember(1, 10, text(4, "hi there", 100)), (false, true));
    assert_eq!(store.remember(1, 9, text(5, "earlier", 90)), (true, true));
    assert_eq!(store.remember(2, 10, text(4, "other chat", 100)), (true, true));
    assert!(store.has_chat(1));
    assert_eq!(store.message_ids(1), vec![10, 9]);
    assert_eq!(store.message_ids(3), Vec::<i64>::new());
    assert_eq!(store.bucket(1)[0].1.text, "hi there");
    assert!(store.bucket(3).is_empty());
}

#[test]
fn same_message_compares_every_shown_field() {
    let a = text(4, "hi", 100);
    assert!(same_message(&a, &text(4, "hi", 100)));
    assert!(!same_message(&a, &text(5, "hi", 100)));
    assert!(!same_message(&a, &text(4, "hi", 101)));
    let linked = StoredMessage {
        links: vec![TextLink { start: 0, end: 2, url: "https://hi".to_string() }],
        ..text(4, "hi", 100)
    };
    assert!(!same_message(&a, &linked));
    assert!(!same_message(&a, &StoredMessage { outgoing: true, ..text(4, "hi", 100) }));
}

#[test]
fn new_content_replaces_or_removes_a_message() {
    let mut store = MessageStore::new();
    assert!(!store.replace_content(1, 10, Some(photo_content("x"))));
    store.remember(1, 10, text(4, "hi", 100));
    store.remember(1, 11, text(4, "bye", 110));
    assert!(!store.replace_content(1, 12, Some(photo_content("x"))));
    assert!(store.replace_content(1, 10, Some(photo_content("Sunset"))));
    let m = &store.bucket(1)[0].1;
    assert_eq!(m.text, "Sunset");
    assert_eq!(m.kind, MessageKind::Photo);
    assert_eq!(m.sender_id, Some(4));
    assert_eq!(m.date, 100);
    assert_eq!(m.photo_full_width, 1280);
    assert!(store.replace_content(1, 11, None));
    assert_eq!(store.message_ids(1), vec![10]);
    assert!(store.replace_content(1, 99, None));
    assert_eq!(store.message_ids(1), vec![10]);
}

#[test]
fn photo_downloads_fill_their_slots() {
    let mut store = MessageStore::new();
    store.remember(1, 10, text(4, "", 100));
    assert!(!store.set_photo(1, 11, PhotoSlot::Both, "/tmp/p.jpg"));
    assert!(!store.set_photo(2, 10, PhotoSlot::Both, "/tmp/p.jpg"));
    assert!(store.set_photo(1, 10, PhotoSlot::Preview, "/tmp/m.jpg"));
    assert!(!store.set_photo(1, 10, PhotoSlot::Preview, "/tmp/m.jpg"));
    assert_eq!(store.bucket(1)[0].1.photo.as_deref(), Some("/tmp/m.jpg"));
    assert!(store.bucket(1)[0].1.photo_full.is_none());
    assert!(store.set_photo(1, 10, PhotoSlot::Full, "/tmp/w.jpg"));
    assert_eq!(store.bucket(1)[0].1.photo_full.as_deref(), Some("/tmp/w.jpg"));
    assert!(store.set_photo(1, 10, PhotoSlot::Both, "/tmp/m.jpg"));
    assert_eq!(store.bucket(1)[0].1.photo_full.as_deref(), Some("/tmp/m.jpg"));
    assert!(!store.set_photo(1, 10, PhotoSlot::Both, "/tmp/m.jpg"));
}

#[test]
fn stored_bucket_feeds_the_transcript() {
    let mut store = MessageStore::new();
    store.remember(1, 12, text(4, "second", 200));
    store.remember(1, 11, text(4, "first", 100));
    let users = vec![(4, "Ada".to_string())];
    let rows = conversation_messages(1, store.bucket(1), 0, None, &users, &[]);
    assert_eq!(rows[0].text, "first");
    assert_eq!(rows[1].text, "second");
    assert_eq!(rows[0].sender, "Ada");
}

#[test]
fn message_photo_watches_share_one_file() {
    assert_eq!(photo_watches(Some(3), Some(3)), vec![(3, PhotoSlot::Both)]);
    assert_eq!(photo_watches(Some(3), Some(4)), vec![(3, PhotoSlot::Preview), (4, PhotoSlot::Full)]);
    assert_eq!(photo_watches(None, Some(4)), vec![(4, PhotoSlot::Full)]);
    assert_eq!(photo_watches(Some(3), None), vec![(3, PhotoSlot::Preview)]);
    assert!(photo_watches(None, None).is_empty());
}

#[test]
fn watched_files_are_asked_for_once() {
    let mut watch = FileWatch::new();
    assert!(matches!(watch.watch(11, FileRole::Avatar(1), None, Some(true)), WatchStep::Request));
    assert!(matches!(watch.watch(11, FileRole::Avatar(1), None, Some(true)), WatchStep::Nothing));
    assert!(matches!(watch.watch(12, FileRole::ContactAvatar(4), None, Some(false)), WatchStep::Nothing));
    assert!(matches!(watch.watch(13, FileRole::ContactAvatar(4), None, None), WatchStep::Request));
    match watch.watch(14, FileRole::MessagePhoto(1, 10, PhotoSlot::Both), Some("/tmp/d.jpg".to_string()), None) {
        WatchStep::Apply(path) => assert_eq!(path, "/tmp/d.jpg"),
        _ => panic!("a finished file is applied"),
    }
    assert_eq!(watch.role(11), Some(FileRole::Avatar(1)));
    assert_eq!(watch.role(12), Some(FileRole::ContactAvatar(4)));
    assert_eq!(watch.role(99), None);
    watch.watch(11, FileRole::ContactAvatar(7), None, None);
    assert_eq!(watch.role(11), Some(FileRole::ContactAvatar(7)));
}

#[test]
fn finished_downloads_go_where_their_role_says() {
    let mut watch = FileWatch::new();
    let mut chats = ChatTable::new();
    let mut contacts = ContactBook::new();
    let mut messages = MessageStore::new();
    chats.remember_chat(
        &ChatInfo {
            id: 1,
            title: Some("Alpha".to_string()),
            unread_count: None,
            marked_unread: None,
            last_message: LastMessage::Missing,
            photo_null: false,
            positions: None,
        },
        20,
    );
    contacts.note_contact(&UserInfo {
        id: 4,
        name: "Ada".to_string(),
        username: String::new(),
        is_contact: Some(true),
        photo_null: false,
    });
    messages.remember(1, 10, text(4, "", 100));
    watch.watch(21, FileRole::Avatar(1), None, None);
    watch.watch(22, FileRole::ContactAvatar(4), None, None);
    watch.watch(23, FileRole::MessagePhoto(1, 10, PhotoSlot::Preview), None, None);
    assert!(apply_downloaded(&watch, &mut chats, &mut contacts, &mut messages, 21, "/tmp/c.jpg"));
    assert!(!apply_downloaded(&watch, &mut chats, &mut contacts, &mut messages, 21, "/tmp/c.jpg"));
    assert!(apply_downloaded(&watch, &mut chats, &mut contacts, &mut messages, 22, "/tmp/u.jpg"));
    assert!(apply_downloaded(&watch, &mut chats, &mut contacts, &mut messages, 23, "/tmp/m.jpg"));
    assert!(!apply_downloaded(&watch, &mut chats, &mut contacts, &mut messages, 24, "/tmp/x.jpg"));
    assert_eq!(chats.chat(1).unwrap().avatar.as_deref(), Some("/tmp/c.jpg"));
    assert_eq!(contacts.contacts()[0].avatar.as_deref(), Some("/tmp/u.jpg"));
    assert_eq!(messages.bucket(1)[0].1.photo.as_deref(), Some("/tmp/m.jpg"));
}
