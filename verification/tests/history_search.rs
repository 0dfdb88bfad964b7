use mithka_tdlib::chats::{ChatInfo, ChatTable, LastMessage};
use mithka_tdlib::history::HistoryTracker;
use mithka_tdlib::messages::ReadCursors;
use mithka_tdlib::search::{SearchStart, SearchState};

fn titled(id: i64, title: &str) -> ChatInfo {
    ChatInfo {
        id,
        title: Some(title.to_string()),
        unread_count: None,
        marked_unread: None,
        last_message: LastMessage::Missing,
        photo_null: false,
        positions: None,
    }
}

#[test]
fn opening_chats_closes_the_previous_one() {
    let mut h = HistoryTracker::new();
    assert_eq!(h.open(5), None);
    assert_eq!(h.open_chat(), Some(5));
    assert!(h.is_pending(5));
    assert_eq!(h.anchor(5), Some(0));
    assert_eq!(h.open(5), None);
    assert_eq!(h.open(6), Some(5));
    assert_eq!(h.open_chat(), Some(6));
}

#[test]
fn older_pages_anchor_on_the_oldest_message_once_at_a_time() {
    let mut h = HistoryTracker::new();
    h.open(5);
    assert_eq!(h.load_older(5, Some(100)), None);
    h.finish(5, &[100, 120], false);
    assert!(!h.is_pending(5));
    assert_eq!(h.anchor(5), None);
    assert!(!h.is_exhausted(5));
    assert_eq!(h.load_older(6, Some(100)), None);
    assert_eq!(h.load_older(5, None), None);
    assert_eq!(h.load_older(5, Some(100)), Some(100));
    assert!(h.is_pending(5));
    assert_eq!(h.anchor(5), Some(100));
    assert_eq!(h.load_older(5, Some(100)), None);
    h.finish(5, &[100], false);
    assert!(h.is_exhausted(5));
    assert_eq!(h.load_older(5, Some(100)), None);
    h.open(5);
    assert!(!h.is_exhausted(5));
}

#[test]
fn an_empty_first_page_of_an_empty_chat_has_nothing_older() {
    let mut h = HistoryTracker::new();
    h.open(7);
    h.finish(7, &[], true);
    assert!(h.is_exhausted(7));
    let mut h = HistoryTracker::new();
    h.open(7);
    h.finish(7, &[], false);
    assert!(!h.is_exhausted(7));
    h.finish(8, &[], true);
    assert!(!h.is_exhausted(8));
}

#[test]
fn search_start_plans_the_requests() {
    let mut s = SearchState::new();
    assert_eq!(s.start("  ", true, 20), SearchStart::Cleared);
    assert_eq!(s.generation(), 1);
    assert_eq!(s.start("ada", false, 20), SearchStart::NotReady);
    assert_eq!(s.query(), "ada");
    assert_eq!(
        s.start(" ada lovelace ", true, 20),
        SearchStart::Sent { generation: 3, limit: 20, public: None }
    );
    assert_eq!(s.query(), "ada lovelace");
    assert_eq!(
        s.start("@durov", true, 500),
        SearchStart::Sent { generation: 4, limit: 50, public: Some("durov".to_string()) }
    );
    assert_eq!(
        s.start("public", true, 0),
        SearchStart::Sent { generation: 5, limit: 1, public: Some("public".to_string()) }
    );
}

#[test]
fn search_replies_merge_and_complete() {
    let mut table = ChatTable::new();
    table.remember_chat(&titled(1, "Alpha"), 20);
    let mut s = SearchState::new();
    let g = match s.start("alpha one", true, 20) {
        SearchStart::Sent { generation, .. } => generation,
        other => panic!("unexpected {:?}", other),
    };
    assert_eq!(s.on_chats(g + 1, &[9], table.chats()), None);
    assert_eq!(s.on_chats(g, &[1, 77, 1], table.chats()), Some((vec![77], false)));
    assert_eq!(s.on_chats(g, &[77, 78], table.chats()), Some((vec![78], true)));
    assert_eq!(s.ids(), &[1, 77, 78]);
    let rows = s.results(table.chats());
    assert_eq!(rows.len(), 1);
    assert_eq!(rows[0].title, "Alpha");
}

#[test]
fn search_errors_mark_only_the_current_generation() {
    let mut s = SearchState::new();
    let g = match s.start("alpha one", true, 20) {
        SearchStart::Sent { generation, .. } => generation,
        other => panic!("unexpected {:?}", other),
    };
    assert!(!s.on_error(g + 5));
    assert!(s.on_error(g));
    assert_eq!(s.on_chats(g, &[], &[]), Some((vec![], false)));
    s.start("", true, 20);
    assert_eq!(s.on_chats(s.generation(), &[1], &[]), None);
}

#[test]
fn read_cursors_move_and_default_to_zero() {
    let mut c = ReadCursors::new();
    assert_eq!(c.cursor(3), 0);
    assert!(c.note(3, 40));
    assert!(!c.note(3, 40));
    assert!(c.note(3, 41));
    assert_eq!(c.cursor(3), 41);
    assert_eq!(c.cursor(4), 0);
}
