use mithka_tdlib::gpui::groups::NestedFolder;
use mithka_tdlib::gpui::images::{image_pixel_size, jpeg_pixel_size, png_pixel_size, webp_pixel_size};
use mithka_tdlib::gpui::pins::PinLibrary;
use mithka_tdlib::gpui::text::{article_paragraphs, header_text, message_header};
use mithka_tdlib::gpui::view::{chat_list_empty, folder_label, known_folders, shown_chats};
use mithka_tdlib::shell::{ChatItem, FolderItem};

#[test]
fn png_header_reports_pixel_size() {
    let mut bytes = vec![
        0x89, b'P', b'N', b'G', 0x0d, 0x0a, 0x1a, 0x0a, 0x00, 0x00, 0x00, 0x0d, b'I', b'H', b'D', b'R',
    ];
    bytes.extend_from_slice(&1280u32.to_be_bytes());
    bytes.extend_from_slice(&800u32.to_be_bytes());
    assert_eq!(png_pixel_size(&bytes), Some((1280, 800)));
    assert_eq!(image_pixel_size(&bytes), Some((1280, 800)));
    bytes[20] = 0x80;
    assert_eq!(png_pixel_size(&bytes), None);
    assert_eq!(png_pixel_size(&bytes[..20]), None);
}

#[test]
fn jpeg_start_of_frame_gives_the_size() {
    let bytes = vec![
        0xff, 0xd8, // SOI
        0xff, 0xe0, 0x00, 0x04, 0x00, 0x00, // APP0, 2 bytes of payload
        0xff, 0xff, 0xc0, 0x00, 0x11, 0x08, 0x01, 0xe0, 0x02, 0x80, 0x03, // SOF0: 480 x 640
        0x00, 0x00, 0x00, 0x00, 0x00, 0x00, 0x00, 0x00, 0x00, 0x00,
    ];
    assert_eq!(jpeg_pixel_size(&bytes), Some((640, 480)));
    assert_eq!(image_pixel_size(&bytes), Some((640, 480)));
    let scan_first = vec![0xff, 0xd8, 0xff, 0xda, 0x00, 0x00, 0x00];
    assert_eq!(jpeg_pixel_size(&scan_first), None);
    assert_eq!(jpeg_pixel_size(&[0xff, 0xd8, 0x00]), None);
}

fn riff(tag: &[u8; 4], payload: &[u8]) -> Vec<u8> {
    let mut bytes = b"RIFF".to_vec();
    bytes.extend_from_slice(&[0, 0, 0, 0]);
    bytes.extend_from_slice(b"WEBP");
    bytes.extend_from_slice(tag);
    bytes.extend_from_slice(&[0, 0, 0, 0]);
    bytes.extend_from_slice(payload);
    while bytes.len() < 30 {
        bytes.push(0);
    }
    bytes
}

#[test]
fn webp_headers_give_the_canvas() {
    let extended = riff(b"VP8X", &[0, 0, 0, 0, 0xff, 0x01, 0x00, 0x7f, 0x00, 0x00]);
    assert_eq!(webp_pixel_size(&extended), Some((512, 128)));
    let lossy = riff(b"VP8 ", &[0, 0, 0, 0x9d, 0x01, 0x2a, 0x80, 0x02, 0xe0, 0x01]);
    assert_eq!(webp_pixel_size(&lossy), Some((640, 480)));
    let bits: u32 = (99 << 14) | 199;
    let mut payload = vec![0x2f];
    payload.extend_from_slice(&bits.to_le_bytes());
    let lossless = riff(b"VP8L", &payload);
    assert_eq!(webp_pixel_size(&lossless), Some((200, 100)));
    assert_eq!(image_pixel_size(&lossless), Some((200, 100)));
    assert_eq!(webp_pixel_size(&riff(b"ABCD", &[])), None);
}

#[test]
fn articles_split_into_paragraphs() {
    assert_eq!(article_paragraphs("Hello there\n\nSecond\n\n\n\n  Third  "), vec!["Hello there", "Second", "Third"]);
    assert!(article_paragraphs("   ").is_empty());
    assert_eq!(article_paragraphs("one\ntwo"), vec!["one\ntwo"]);
}

#[test]
fn headers_join_sender_and_time() {
    assert_eq!(header_text("Ada", "2024-01-01 10:00"), "Ada · 2024-01-01 10:00");
    assert_eq!(header_text("", "10:00"), "10:00");
    assert_eq!(header_text("Ada", ""), "Ada");
    assert_eq!(message_header("Ada", 0), "Ada");
    assert!(message_header("Ada", 1_700_000_000).starts_with("Ada · "));
}

fn chat(id: i64, order: i64) -> ChatItem {
    let mut c = ChatItem::empty(id);
    c.title = format!("Chat {id}");
    c.order = order;
    c
}

#[test]
fn pinned_chats_come_first_and_groups_filter() {
    let mut pins = PinLibrary::new("/db");
    pins.toggle(3);
    pins.toggle(1);
    let chats = vec![chat(5, 50), chat(3, 40), chat(4, 30), chat(1, 20)];
    let shown: Vec<i64> = shown_chats(&chats, None, None, &pins).iter().map(|c| c.id).collect();
    assert_eq!(shown, vec![1, 3, 5, 4]);
    let group = [NestedFolder::Folder { id: 2 }];
    assert!(shown_chats(&chats, Some(&group), None, &pins).is_empty());
    assert_eq!(shown_chats(&chats, Some(&group), Some(2), &pins).len(), 4);
}

#[test]
fn empty_column_notes_and_folder_labels() {
    assert_eq!(chat_list_empty(false, None, None), "Waiting for the main chat list.");
    assert_eq!(chat_list_empty(true, Some(&[]), None), "Attach a Telegram folder in the middle column.");
    assert_eq!(chat_list_empty(true, Some(&[NestedFolder::Main]), Some(1)), "Pick a folder in this group.");
    assert_eq!(chat_list_empty(true, None, Some(1)), "No chats in this folder.");
    assert_eq!(chat_list_empty(true, None, None), "No chats in the local main list yet.");
    let folders = vec![FolderItem { id: 1, title: "Work".into() }, FolderItem { id: 2, title: String::new() }];
    assert_eq!(folder_label(&folders, NestedFolder::Main), "All");
    assert_eq!(folder_label(&folders, NestedFolder::Folder { id: 1 }), "Work");
    assert_eq!(folder_label(&folders, NestedFolder::Folder { id: 2 }), "Folder 2");
    assert_eq!(folder_label(&folders, NestedFolder::Folder { id: 9 }), "Folder 9");
    assert_eq!(
        known_folders(&folders),
        vec![NestedFolder::Main, NestedFolder::Folder { id: 1 }, NestedFolder::Folder { id: 2 }]
    );
}

use mithka_tdlib::gpui::feeds::FeedPanel;
use mithka_tdlib::gpui::view::{after_toggle, focus_nested, transcript_change, TranscriptChange};
use mithka_tdlib::rss::parse::ParsedItem;
use mithka_tdlib::rss::store::SubscriptionStore;
use mithka_tdlib::rss::FeedEvent;

#[test]
fn group_navigation_decisions() {
    let folders = [NestedFolder::Folder { id: 2 }, NestedFolder::Main];
    assert_eq!(focus_nested(&folders, None), None);
    assert_eq!(focus_nested(&folders, Some(5)), Some(Some(2)));
    assert_eq!(focus_nested(&[], Some(5)), None);
    assert_eq!(after_toggle(true, NestedFolder::Folder { id: 3 }, None, None), Some(Some(3)));
    assert_eq!(after_toggle(true, NestedFolder::Main, None, None), None);
    assert_eq!(after_toggle(false, NestedFolder::Folder { id: 3 }, Some(3), Some(NestedFolder::Main)), Some(None));
    assert_eq!(after_toggle(false, NestedFolder::Folder { id: 3 }, Some(3), None), None);
    assert_eq!(after_toggle(false, NestedFolder::Folder { id: 3 }, Some(4), Some(NestedFolder::Main)), None);
}

#[test]
fn transcript_follows_prepends_and_appends() {
    assert_eq!(transcript_change(&[1, 2], &[1, 2]), TranscriptChange::Same);
    assert_eq!(transcript_change(&[3, 4], &[1, 2, 3, 4]), TranscriptChange::Prepended(2));
    assert_eq!(transcript_change(&[1, 2], &[1, 2, 3]), TranscriptChange::Appended { start: 2, added: 1 });
    assert_eq!(transcript_change(&[], &[1, 2]), TranscriptChange::Reset(2));
    assert_eq!(transcript_change(&[1, 2], &[5]), TranscriptChange::Reset(1));
}

fn parsed(key: &str, title: &str) -> ParsedItem {
    ParsedItem { key: key.into(), title: title.into(), link: String::new(), published: 1, body: String::new() }
}

#[test]
fn feed_panel_commits_refreshes_and_applies() {
    let mut panel = FeedPanel::new(SubscriptionStore::new());
    assert!(panel.refresh().is_empty());
    assert_eq!(panel.status(), "Add a feed URL first.");
    assert!(panel.commit("   ").is_none());
    assert!(panel.commit("ftp://x").is_none());
    assert_eq!(panel.status(), "Feed URL must be http or https.");
    let job = panel.commit(" https://a.example/feed ").unwrap();
    assert_eq!((job.id.as_str(), job.url.as_str()), ("f1", "https://a.example/feed"));
    assert_eq!(panel.source(), Some("f1"));
    assert_eq!(panel.refreshing(), 1);
    assert_eq!(panel.status(), "Refreshing…");
    panel.open("gone".into());
    let changed = panel.apply(FeedEvent::Fetched {
        id: "f1".into(),
        title: "Wire".into(),
        items: vec![parsed("k1", "One"), parsed("k2", "Two")],
    });
    assert!(changed);
    assert_eq!(panel.status(), "Updated Wire (2)");
    assert_eq!(panel.refreshing(), 0);
    assert_eq!(panel.open_item(), None);
    assert!(!panel.apply(FeedEvent::Failed { id: "f1".into(), message: "timeout".into() }));
    assert_eq!(panel.status(), "Wire: timeout");
    assert_eq!(panel.refreshing(), 0);
    panel.select_source(None);
    assert_eq!(panel.refresh().len(), 1);
    panel.select_source(Some("f1".into()));
    assert!(panel.remove_selected());
    assert!(panel.store().sources().is_empty());
    assert!(!panel.remove_selected());
}
