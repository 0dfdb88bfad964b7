use mithka_tdlib::gpui::spans::{http_spans, TextSpan};
use mithka_tdlib::gtk::{composer_send, escape_markup, link_markup, list_placeholder, narrow_layout, unread_badge, PaneLayout};
use mithka_tdlib::shell::{ChatItem, ShellCommand, TextLink};

fn link(start: usize, end: usize, url: &str) -> TextLink {
    TextLink { start, end, url: url.to_string() }
}

fn text(t: &str) -> TextSpan {
    TextSpan::Text(t.to_string())
}

fn linked(label: &str, url: &str) -> TextSpan {
    TextSpan::Link { label: label.to_string(), url: url.to_string() }
}

#[test]
fn spans_cut_text_around_a_link() {
    let spans = http_spans("see https://a.io now", &[link(4, 16, "https://a.io")]);
    assert_eq!(spans, vec![text("see "), linked("https://a.io", "https://a.io"), text(" now")]);
}

#[test]
fn spans_go_by_start_and_drop_overlaps() {
    let spans = http_spans("abcdef", &[link(2, 5, "https://b"), link(0, 3, "https://a")]);
    assert_eq!(spans, vec![linked("abc", "https://a"), text("def")]);
}

#[test]
fn spans_skip_links_off_character_boundaries_or_schemes() {
    assert_eq!(http_spans("é!", &[link(1, 3, "https://x.io")]), vec![text("é!")]);
    assert_eq!(http_spans("go", &[link(0, 2, "ftp://x.io")]), vec![text("go")]);
    assert_eq!(http_spans("go", &[link(0, 3, "https://x.io")]), vec![text("go")]);
    assert_eq!(http_spans("go", &[link(1, 1, "https://x.io")]), vec![text("go")]);
    assert_eq!(http_spans("é!", &[link(2, 3, "https://x.io")]), vec![text("é"), linked("!", "https://x.io")]);
    assert_eq!(http_spans("", &[]), Vec::<TextSpan>::new());
}

#[test]
fn markup_escapes_text_and_link_attributes() {
    assert_eq!(escape_markup("a<b & c>d"), "a&lt;b &amp; c&gt;d");
    assert_eq!(
        link_markup("see https://a.io now", &[link(4, 16, "https://a.io")]),
        "see <a href=\"https://a.io\">https://a.io</a> now"
    );
    assert_eq!(
        link_markup("<go>", &[link(1, 3, "https://q.io/\"x\"&y")]),
        "&lt;<a href=\"https://q.io/&quot;x&quot;&amp;y\">go</a>&gt;"
    );
    assert_eq!(link_markup("a & b", &[]), "a &amp; b");
}

fn chat(unread: i32, marked_unread: bool) -> ChatItem {
    ChatItem {
        id: 1,
        title: "Chat".into(),
        order: 0,
        unread,
        marked_unread,
        avatar: None,
        preview: String::new(),
        preview_date: 0,
        real_order: false,
    }
}

#[test]
fn unread_badge_caps_counts_and_marks_unread_chats() {
    assert_eq!(unread_badge(&chat(120, false)), Some("99+".to_string()));
    assert_eq!(unread_badge(&chat(99, false)), Some("99".to_string()));
    assert_eq!(unread_badge(&chat(7, true)), Some("7".to_string()));
    assert_eq!(unread_badge(&chat(0, true)), Some("•".to_string()));
    assert_eq!(unread_badge(&chat(0, false)), None);
}

#[test]
fn spans_together_give_back_the_body() {
    let body = "a https://x.io b https://y.io c";
    let spans = http_spans(body, &[link(2, 14, "https://x.io"), link(10, 20, "https://z.io"), link(17, 29, "https://y.io")]);
    let joined: String = spans
        .iter()
        .map(|span| match span {
            TextSpan::Text(t) => t.clone(),
            TextSpan::Link { label, .. } => label.clone(),
        })
        .collect();
    assert_eq!(joined, body);
    assert_eq!(spans.len(), 5);
}

#[test]
fn narrow_windows_show_one_pane() {
    let both = PaneLayout { list: true, conversation: true, back: false };
    let convo = PaneLayout { list: false, conversation: true, back: true };
    let list = PaneLayout { list: true, conversation: false, back: false };
    assert_eq!(narrow_layout(980, true, false), both);
    assert_eq!(narrow_layout(760, true, false), both);
    assert_eq!(narrow_layout(0, true, false), both);
    assert_eq!(narrow_layout(759, true, false), convo);
    assert_eq!(narrow_layout(500, true, true), list);
    assert_eq!(narrow_layout(500, false, false), list);
}

#[test]
fn chat_list_placeholder_explains_an_empty_list() {
    assert_eq!(list_placeholder(true, true, true, false), None);
    assert_eq!(list_placeholder(false, true, true, true), Some("No chats in this folder."));
    assert_eq!(list_placeholder(false, true, true, false), Some("No chats in the local main list yet."));
    assert_eq!(list_placeholder(false, false, false, false), Some("Open a chat to read recent text messages."));
    assert_eq!(list_placeholder(false, true, false, false), None);
}

#[test]
fn composer_sends_non_blank_text_to_the_open_chat() {
    assert!(composer_send(None, "hi").is_none());
    assert!(composer_send(Some(4), "  \n").is_none());
    match composer_send(Some(4), " hi ") {
        Some(ShellCommand::SendText { chat_id, text }) => {
            assert_eq!(chat_id, 4);
            assert_eq!(text, " hi ");
        }
        _ => panic!("expected a send"),
    }
}
