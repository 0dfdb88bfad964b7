use mithka_tdlib::gpui::window::{AfterUpdate, ShellWindow};
use mithka_tdlib::gpui::search::search_rows;
use mithka_tdlib::gpui::groups::NestedFolder;
use mithka_tdlib::shell::ShellCommand;
use mithka_tdlib::shell::{ChatItem, FolderItem, UiUpdate};

fn chat(id: i64, title: &str) -> ChatItem {
    ChatItem {
        id,
        title: title.into(),
        order: 0,
        unread: 0,
        marked_unread: false,
        avatar: None,
        preview: String::new(),
        preview_date: 0,
        real_order: false,
    }
}

fn folder(id: i32, title: &str) -> FolderItem {
    FolderItem { id, title: title.into() }
}

#[test]
fn window_status_follows_ready_and_fatal() {
    let mut w = ShellWindow::new();
    assert_eq!(w.apply(UiUpdate::Log("auth: x".into())), AfterUpdate::Print("auth: x".into()));
    assert_eq!(w.apply(UiUpdate::Status("Connecting".into())), AfterUpdate::Nothing);
    assert_eq!(w.status, "Connecting");
    assert_eq!(w.apply(UiUpdate::Ready), AfterUpdate::Nothing);
    assert!(w.ready);
    assert_eq!(w.status, "Ready");
    assert_eq!(w.apply(UiUpdate::Fatal("boom".into())), AfterUpdate::Sync);
    assert!(!w.ready);
    assert_eq!(w.status, "TDLib error");
    assert_eq!(w.convo_title, "TDLib error");
    assert_eq!(w.messages.len(), 1);
    assert_eq!(w.messages[0].text, "boom");
    assert_eq!(w.messages[0].id, 0);
    assert!(w.messages[0].links.is_empty());
}

#[test]
fn window_drops_a_folder_filter_that_is_gone() {
    let mut w = ShellWindow::new();
    w.folder = Some(3);
    w.apply(UiUpdate::Folders(vec![folder(3, "Work"), folder(4, "Home")]));
    assert_eq!(w.folder, Some(3));
    assert_eq!(w.folders.len(), 2);
    w.apply(UiUpdate::Folders(vec![folder(4, "Home")]));
    assert_eq!(w.folder, None);
    assert_eq!(w.folders, vec![folder(4, "Home")]);
}

#[test]
fn window_opens_a_chat_and_takes_only_its_conversation() {
    let mut w = ShellWindow::new();
    w.apply(UiUpdate::ChatList(vec![chat(5, "Five"), chat(6, "…"), chat(7, "")]));
    assert_eq!(
        w.apply(UiUpdate::Conversation { chat_id: 5, title: "Five".into(), messages: Vec::new() }),
        AfterUpdate::Nothing
    );
    assert_eq!(w.convo_title, "");
    w.loading_older = true;
    assert_eq!(w.apply(UiUpdate::OpenChat(5)), AfterUpdate::Opened);
    assert_eq!(w.open_chat, Some(5));
    assert_eq!(w.convo_title, "Five");
    assert!(!w.loading_older);
    assert_eq!(
        w.apply(UiUpdate::Conversation { chat_id: 5, title: "Fünf".into(), messages: Vec::new() }),
        AfterUpdate::Sync
    );
    assert_eq!(w.convo_title, "Fünf");
    w.apply(UiUpdate::OpenChat(6));
    assert_eq!(w.convo_title, "Loading…");
    w.apply(UiUpdate::OpenChat(7));
    assert_eq!(w.convo_title, "Loading…");
    w.apply(UiUpdate::OpenChat(8));
    assert_eq!(w.convo_title, "Loading…");
}

#[test]
fn window_keeps_search_hits_and_contacts() {
    let mut w = ShellWindow::new();
    w.apply(UiUpdate::SearchResults { query: "ann".into(), chats: vec![chat(1, "Ann")] });
    assert_eq!(w.search_echo, "ann");
    assert_eq!(w.search_hits, vec![chat(1, "Ann")]);
    w.apply(UiUpdate::Contacts(Vec::new()));
    assert!(w.contacts.is_empty());
}

#[test]
fn window_sidebar_switches_panels_and_asks_the_session() {
    let mut w = ShellWindow::new();
    w.ready = true;
    assert!(matches!(w.select_contacts(), Some(ShellCommand::LoadContacts)));
    assert!(w.show_contacts);
    assert!(w.select_contacts().is_none());
    w.status = "12 contacts".into();
    assert!(matches!(w.select_folder(Some(3)), Some(ShellCommand::SelectFolder(Some(3)))));
    assert!(!w.show_contacts);
    assert_eq!(w.status, "Ready");
    assert!(w.select_folder(Some(3)).is_none());
    w.select_subscriptions();
    assert!(w.show_feeds);
    let sent = w.select_group(Some("g1".into()), &[NestedFolder::Folder { id: 5 }, NestedFolder::Main]);
    assert!(matches!(sent, Some(ShellCommand::SelectFolder(Some(5)))));
    assert!(!w.show_feeds);
    assert_eq!(w.group_id.as_deref(), Some("g1"));
    assert_eq!(w.folder, Some(5));
    assert!(w.select_group(Some("g1".into()), &[]).is_none());
    assert!(w.select_group(Some("g2".into()), &[NestedFolder::Main, NestedFolder::Folder { id: 5 }]).is_none());
    assert_eq!(w.folder, Some(5));
}

#[test]
fn window_search_sends_changed_trimmed_queries() {
    let mut w = ShellWindow::new();
    match w.search_changed("  ann ") {
        Some(ShellCommand::Search(q)) => assert_eq!(q, "ann"),
        _ => panic!("expected a search"),
    }
    assert!(w.search_changed("ann").is_none());
    w.apply(UiUpdate::SearchResults { query: "ann".into(), chats: vec![chat(1, "Ann")] });
    match w.search_changed(" ") {
        Some(ShellCommand::Search(q)) => assert_eq!(q, ""),
        _ => panic!("expected a cleared search"),
    }
    assert!(w.search_hits.is_empty());
    assert_eq!(w.search_echo, "");
}

#[test]
fn window_opens_chats_and_contacts_and_pages_back() {
    let mut w = ShellWindow::new();
    w.apply(UiUpdate::ChatList(vec![chat(1, "One")]));
    w.apply(UiUpdate::SearchResults { query: "t".into(), chats: vec![chat(2, "Two")] });
    w.loading_older = true;
    assert!(matches!(w.open_chat(2), ShellCommand::SelectChat(2)));
    assert_eq!(w.open_chat, Some(2));
    assert_eq!(w.convo_title, "Two");
    assert!(!w.loading_older);
    assert!(w.request_older(true).is_none());
    w.apply(UiUpdate::Conversation {
        chat_id: 2,
        title: "Two".into(),
        messages: vec![mithka_tdlib::shell::TextMessage {
            id: 10,
            chat_id: 2,
            sender: "A".into(),
            text: "hi".into(),
            date: 1,
            kind: mithka_tdlib::shell::MessageKind::Text,
            photo: None,
            photo_full: None,
            photo_full_width: 0,
            photo_full_height: 0,
            links: Vec::new(),
            outgoing: false,
            read: false,
        }],
    });
    assert!(w.request_older(false).is_none());
    assert!(matches!(w.request_older(true), Some(ShellCommand::LoadOlder { chat_id: 2 })));
    assert!(w.loading_older);
    assert!(w.request_older(true).is_none());
    assert!(w.send_composer(" hi ").is_none());
    w.ready = true;
    match w.send_composer(" hi ") {
        Some(ShellCommand::SendText { chat_id, text }) => {
            assert_eq!(chat_id, 2);
            assert_eq!(text, "hi");
        }
        _ => panic!("expected a send"),
    }
    assert!(w.send_composer("   ").is_none());
    assert!(matches!(w.open_chat(9), ShellCommand::SelectChat(9)));
    assert_eq!(w.convo_title, "Loading…");
    w.apply(UiUpdate::Contacts(vec![mithka_tdlib::shell::ContactItem {
        user_id: 7,
        name: "Ann Lee".into(),
        username: "ann".into(),
        avatar: None,
    }]));
    assert!(matches!(w.open_contact(7), ShellCommand::OpenContact(7)));
    assert_eq!(w.convo_title, "Ann Lee");
    assert!(matches!(w.open_contact(8), ShellCommand::OpenContact(8)));
    assert_eq!(w.convo_title, "Ann Lee");
}

#[test]
fn window_group_box_creates_renames_and_deletes() {
    let mut groups = mithka_tdlib::gpui::groups::GroupLibrary::new("/db");
    let mut w = ShellWindow::new();
    assert!(!w.commit_group_draft(&mut groups, "   "));
    assert!(groups.groups().is_empty());
    w.show_feeds = true;
    assert!(w.commit_group_draft(&mut groups, " Work "));
    assert_eq!(groups.groups().len(), 1);
    let id = groups.groups()[0].id.clone();
    assert_eq!(w.group_id.as_deref(), Some(id.as_str()));
    assert!(!w.show_feeds);
    assert_eq!(w.begin_rename(&groups).as_deref(), Some("Work"));
    assert!(w.renaming_group);
    assert!(w.commit_group_draft(&mut groups, "Jobs"));
    assert!(!w.renaming_group);
    assert_eq!(groups.groups()[0].name, "Jobs");
    assert!(w.delete_selected_group(&mut groups));
    assert!(w.group_id.is_none());
    assert!(groups.groups().is_empty());
    assert!(!w.delete_selected_group(&mut groups));
    assert!(w.begin_rename(&groups).is_none());
}

#[test]
fn search_rows_match_titles_in_lowercase_then_add_fresh_hits() {
    let shown = vec![chat(1, "Ärzte Team"), chat(2, "Bob")];
    let hits = vec![chat(1, "Ärzte Team"), chat(3, "Ärzteblatt"), chat(3, "Ärzteblatt")];
    let (local, extra) = search_rows(shown.clone(), " äRZ ", "äRZ", &hits);
    assert_eq!(local, vec![chat(1, "Ärzte Team")]);
    assert_eq!(extra, vec![chat(3, "Ärzteblatt")]);
    let (local, extra) = search_rows(shown.clone(), "äRZ", "other", &hits);
    assert_eq!(local, vec![chat(1, "Ärzte Team")]);
    assert!(extra.is_empty());
    let (local, extra) = search_rows(shown.clone(), "   ", "", &hits);
    assert_eq!(local, shown);
    assert!(extra.is_empty());
    let (local, _) = search_rows(shown, "BOB", "", &[]);
    assert_eq!(local, vec![chat(2, "Bob")]);
}

fn photo(id: i64, full: Option<&str>, width: i32, height: i32) -> mithka_tdlib::shell::TextMessage {
    mithka_tdlib::shell::TextMessage {
        id,
        chat_id: 2,
        sender: "A".into(),
        text: String::new(),
        date: 1,
        kind: mithka_tdlib::shell::MessageKind::Photo,
        photo: None,
        photo_full: full.map(str::to_string),
        photo_full_width: width,
        photo_full_height: height,
        links: Vec::new(),
        outgoing: false,
        read: false,
    }
}

#[test]
fn popup_file_comes_with_the_size_tdlib_gave() {
    let mut w = ShellWindow::new();
    w.open_chat(2);
    w.apply(UiUpdate::Conversation {
        chat_id: 2,
        title: "Two".into(),
        messages: vec![photo(1, Some("/f/1.jpg"), 1280, 960), photo(2, Some("/f/2.jpg"), 0, 960), photo(3, None, 5, 5)],
    });
    assert_eq!(w.full_photo(1), Some(("/f/1.jpg".to_string(), Some((1280, 960)))));
    assert_eq!(w.full_photo(2), Some(("/f/2.jpg".to_string(), None)));
    assert_eq!(w.full_photo(3), None);
    assert_eq!(w.full_photo(4), None);
}
