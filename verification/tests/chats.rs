use mithka_tdlib::chats::{ChatInfo, ChatTable, LastMessage};
use mithka_tdlib::shell::{collapse_preview, message_snippet, search_chats, ChatPosition, PositionList};

fn main_at(order: i64) -> ChatPosition {
    ChatPosition { list: PositionList::Main, order: Some(order) }
}

fn folder_at(folder: i32, order: i64) -> ChatPosition {
    ChatPosition { list: PositionList::Folder(folder), order: Some(order) }
}

fn info(id: i64, title: &str) -> ChatInfo {
    ChatInfo {
        id,
        title: Some(title.to_string()),
        unread_count: None,
        marked_unread: None,
        last_message: LastMessage::Missing,
        photo_null: false,
        positions: None,
    }
}

fn titles(table: &ChatTable, folder: Option<i32>) -> Vec<String> {
    table.chat_list(folder, 20).into_iter().map(|c| c.title).collect()
}

#[test]
fn newer_activity_lists_first() {
    let mut table = ChatTable::new();
    table.remember_chat(&ChatInfo { positions: Some(vec![main_at(10)]), ..info(1, "Older") }, 20);
    table.remember_chat(&ChatInfo { positions: Some(vec![main_at(50)]), ..info(2, "Newer") }, 20);
    assert_eq!(titles(&table, None), vec!["Newer", "Older"]);
    assert_eq!(table.listed(), &[1, 2]);
}

#[test]
fn folder_list_shows_only_its_chats() {
    let mut table = ChatTable::new();
    table.remember_chat(&ChatInfo { positions: Some(vec![main_at(10)]), ..info(1, "Alpha") }, 20);
    table.remember_chat(
        &ChatInfo { positions: Some(vec![main_at(40), folder_at(2, 5)]), ..info(2, "Beta") },
        20,
    );
    assert_eq!(titles(&table, Some(2)), vec!["Beta"]);
    assert_eq!(titles(&table, Some(3)), Vec::<String>::new());
    assert_eq!(titles(&table, None), vec!["Beta", "Alpha"]);
    assert!(table.chat_in_some_folder(2));
    assert!(!table.chat_in_some_folder(1));
    let folder_list = table.chat_list(Some(2), 20);
    assert_eq!(folder_list[0].order, 5);
}

#[test]
fn unread_count_and_avatar_follow_updates() {
    let mut table = ChatTable::new();
    table.remember_chat(&ChatInfo { unread_count: Some(4), marked_unread: Some(false), ..info(1, "Alpha") }, 20);
    let chat = table.chat(1).unwrap();
    assert_eq!(chat.unread, 4);
    assert!(chat.avatar.is_none());
    assert!(table.set_avatar(1, "/tmp/a.jpg"));
    assert!(!table.set_avatar(1, "/tmp/a.jpg"));
    assert_eq!(table.chat(1).unwrap().avatar.as_deref(), Some("/tmp/a.jpg"));
    assert!(table.set_unread(1, Some(0)));
    assert_eq!(table.chat(1).unwrap().unread, 0);
    assert!(table.set_unread(1, Some(-3)));
    assert_eq!(table.chat(1).unwrap().unread, 0);
    assert!(table.set_unread(1, Some(5_000_000_000)));
    assert_eq!(table.chat(1).unwrap().unread, i32::MAX);
    assert!(!table.set_unread(9, Some(1)));
    assert!(table.set_marked_unread(1, true));
    assert!(table.chat(1).unwrap().marked_unread);
    assert!(!table.set_marked_unread(9, true));
    assert!(table.clear_avatar(1));
    assert!(table.chat(1).unwrap().avatar.is_none());
    assert!(!table.clear_avatar(9));
    assert!(!table.set_avatar(9, "/tmp/b.jpg"));
}

#[test]
fn preview_follows_the_chat_and_its_last_message() {
    let mut table = ChatTable::new();
    let hello = message_snippet("messageText", "Hello\nfrom Alpha");
    assert_eq!(hello, collapse_preview("Hello\nfrom Alpha"));
    table.remember_chat(
        &ChatInfo {
            unread_count: Some(2),
            last_message: LastMessage::Snippet(hello, 1700000000),
            ..info(1, "Alpha")
        },
        20,
    );
    let items = table.chat_list(None, 20);
    assert_eq!(items[0].preview, "Hello from Alpha");
    assert_eq!(items[0].preview_date, 1700000000);
    assert_eq!(items[0].unread, 2);

    let photo = message_snippet("messagePhoto", "");
    table.on_last_message(1, &LastMessage::Snippet(photo, 1700001111), &[main_at(80)]);
    let items = table.chat_list(None, 20);
    assert_eq!(items[0].preview, "Photo");
    assert_eq!(items[0].preview_date, 1700001111);
    assert_eq!(items[0].order, 80);

    table.on_last_message(1, &LastMessage::Unreadable, &[]);
    assert_eq!(table.chat(1).unwrap().preview, "Photo");
    table.on_last_message(1, &LastMessage::Null, &[]);
    assert_eq!(table.chat(1).unwrap().preview, "");
    assert_eq!(table.chat(1).unwrap().preview_date, 0);
}

#[test]
fn last_message_for_an_unknown_chat_adds_it() {
    let mut table = ChatTable::new();
    table.on_last_message(5, &LastMessage::Missing, &[]);
    assert!(table.chat(5).is_none());
    table.on_last_message(5, &LastMessage::Null, &[]);
    assert_eq!(table.chat(5).unwrap().title, "…");
}

#[test]
fn search_hit_without_a_position_stays_off_the_main_list() {
    let mut table = ChatTable::new();
    let missing = table.on_chats(&[1], 20);
    assert_eq!(missing, vec![1]);
    table.remember_chat(&info(1, "Alpha"), 20);
    let was_listed = table.is_listed(77);
    table.remember_chat(&info(77, "Elsewhere"), 20);
    table.detach_unlisted_search_chat(77, was_listed);
    let items = table.chat_list(None, 20);
    assert!(items.iter().all(|chat| chat.id != 77));
    assert!(items.iter().any(|chat| chat.id == 1));
    let hits = search_chats(&[77], table.chats());
    assert_eq!(hits[0].title, "Elsewhere");
}

#[test]
fn listed_search_hit_stays() {
    let mut table = ChatTable::new();
    table.on_chats(&[1], 20);
    table.remember_chat(&info(1, "Alpha"), 20);
    table.detach_unlisted_search_chat(1, true);
    assert_eq!(table.listed(), &[1]);
    table.detach_unlisted_search_chat(1, false);
    assert!(table.listed().is_empty());
}

#[test]
fn chats_reply_orders_by_place_and_asks_for_titles() {
    let mut table = ChatTable::new();
    table.remember_chat(&info(3, "Gamma"), 20);
    let missing = table.on_chats(&[1, 3, 2, 4], 3);
    assert_eq!(missing, vec![1, 2]);
    assert_eq!(table.listed(), &[1, 3, 2]);
    assert_eq!(table.chat(1).unwrap().order, 1_000_000);
    assert_eq!(table.chat(3).unwrap().order, 999_999);
    assert_eq!(table.chat(2).unwrap().order, 999_998);
    assert!(table.chat(4).is_none());
    assert_eq!(table.on_chats(&[1, 2], 0), Vec::<i64>::new());
    assert!(table.listed().is_empty());
    assert_eq!(table.on_chats(&[1, 2], -5), Vec::<i64>::new());
}

#[test]
fn real_order_is_kept_over_the_place() {
    let mut table = ChatTable::new();
    table.apply_main_order(7, 42);
    table.on_chats(&[7], 20);
    assert_eq!(table.chat(7).unwrap().order, 42);
    assert!(table.chat(7).unwrap().real_order);
}

#[test]
fn zero_main_order_unlists_and_forgets_a_chat_without_folders() {
    let mut table = ChatTable::new();
    table.apply_main_order(1, 30);
    table.apply_main_order(2, 20);
    assert_eq!(table.listed(), &[1, 2]);
    table.apply_main_order(1, 0);
    assert_eq!(table.listed(), &[2]);
    assert!(table.chat(1).is_none());
    table.on_position(2, folder_at(4, 9));
    table.apply_main_order(2, 0);
    assert!(table.listed().is_empty());
    let kept = table.chat(2).unwrap();
    assert_eq!(kept.order, 0);
    assert!(kept.real_order);
}

#[test]
fn positions_in_folders_are_set_and_removed() {
    let mut table = ChatTable::new();
    assert!(table.on_position(5, folder_at(2, 7)));
    assert!(table.chat(5).is_some());
    assert_eq!(table.folder_orders()[0].0, 5);
    assert_eq!(table.folder_orders()[0].1, vec![(2, 7)]);
    assert!(table.on_position(5, folder_at(3, 8)));
    assert!(table.on_position(5, folder_at(2, 9)));
    assert_eq!(table.folder_orders()[0].1, vec![(2, 9), (3, 8)]);
    assert!(table.on_position(5, ChatPosition { list: PositionList::Folder(2), order: None }));
    assert_eq!(table.folder_orders()[0].1, vec![(3, 8)]);
    assert!(table.on_position(6, folder_at(3, 0)));
    assert_eq!(table.folder_orders().len(), 1);
    assert!(!table.on_position(5, ChatPosition { list: PositionList::Other, order: Some(1) }));
    assert!(table.on_position(5, main_at(12)));
    assert_eq!(table.listed(), &[5]);
}

#[test]
fn remembered_positions_fold_in_order() {
    let mut table = ChatTable::new();
    table.remember_folder_positions(8, &[main_at(3)]);
    assert!(table.folder_orders().is_empty());
    table.remember_folder_positions(8, &[folder_at(1, 4), folder_at(1, 0), folder_at(2, 6)]);
    assert_eq!(table.folder_orders()[0].1, vec![(2, 6)]);
    table.remember_folder_positions(8, &[folder_at(2, 0)]);
    assert_eq!(table.folder_orders()[0].0, 8);
    assert!(table.folder_orders()[0].1.is_empty());
    assert!(!table.chat_in_some_folder(8));
}

#[test]
fn folder_reply_seeds_positions_by_place() {
    let mut table = ChatTable::new();
    table.on_position(2, folder_at(9, 77));
    table.remember_chat(&info(2, "Beta"), 20);
    let missing = table.on_folder_chats(9, &[1, 2, 3], 2);
    assert_eq!(missing, vec![1]);
    assert_eq!(table.folder_orders()[0].1, vec![(9, 77)]);
    assert_eq!(table.folder_orders()[1].0, 1);
    assert_eq!(table.folder_orders()[1].1, vec![(9, 1_000_000)]);
    assert!(table.chat(3).is_none());
    assert_eq!(table.listed(), &[2]);
}

#[test]
fn a_pending_title_never_replaces_a_known_one() {
    let mut table = ChatTable::new();
    table.remember_chat(&info(1, "Alpha"), 20);
    table.remember_chat(&info(1, "…"), 20);
    table.remember_chat(&info(1, ""), 20);
    table.remember_chat(&ChatInfo { title: None, ..info(1, "") }, 20);
    assert_eq!(table.chat(1).unwrap().title, "Alpha");
    table.set_title(1, "Renamed");
    assert_eq!(table.chat(1).unwrap().title, "Renamed");
    table.set_title(2, "Nobody");
    assert!(table.chat(2).is_none());
}

#[test]
fn remembered_chat_joins_the_main_list_while_it_has_room() {
    let mut table = ChatTable::new();
    table.remember_chat(&info(1, "A"), 2);
    table.remember_chat(&info(2, "B"), 2);
    table.remember_chat(&info(3, "C"), 2);
    assert_eq!(table.listed(), &[1, 2]);
    assert!(table.chat(3).is_some());
    table.remember_chat(&ChatInfo { positions: Some(vec![main_at(0)]), ..info(2, "B") }, 2);
    assert_eq!(table.listed(), &[1]);
    assert!(table.chat(2).is_none());
    table.remember_chat(&ChatInfo { photo_null: true, ..info(1, "A") }, 0);
    assert_eq!(table.listed(), &[1]);
}
