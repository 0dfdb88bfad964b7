use mithka_tdlib::rss::fetch::{feed_request, fetch_feed, finish_fetch, shorten, MAX_BYTES, REDIRECTS, TIMEOUT_SECS, USER_AGENT};
use mithka_tdlib::rss::parse::{parse_document, stable_key, ParsedItem};
use mithka_tdlib::rss::store::{provisional_title, store_path_in, Source, SubscriptionStore};
use mithka_tdlib::rss::text::html_to_text;
use mithka_tdlib::rss::{refresh_event, run_refresh, FeedEvent, RefreshRequest};

const RSS: &str = r#"<?xml version="1.0"?>
<rss version="2.0">
  <channel>
    <title>Example Wire</title>
    <item>
      <title>Older note</title>
      <link>https://example.com/older</link>
      <guid>older</guid>
      <pubDate>Mon, 01 Jan 2024 00:00:00 GMT</pubDate>
      <description>Plain older</description>
    </item>
    <item>
      <title>Newer note</title>
      <link>https://example.com/newer</link>
      <guid>newer</guid>
      <pubDate>Tue, 02 Jan 2024 12:30:00 GMT</pubDate>
      <description><![CDATA[<p>Hello <b>there</b></p><p>Second</p>]]></description>
    </item>
  </channel>
</rss>
"#;

const STORE_RSS: &str = r#"<?xml version="1.0"?>
<rss version="2.0">
  <channel>
    <title>Example Wire</title>
    <item>
      <title>Older note</title>
      <link>https://example.com/older</link>
      <guid>older</guid>
      <pubDate>Mon, 01 Jan 2024 00:00:00 GMT</pubDate>
      <description>Plain older</description>
    </item>
    <item>
      <title>Newer note</title>
      <link>https://example.com/newer</link>
      <guid>newer</guid>
      <pubDate>Tue, 02 Jan 2024 12:30:00 GMT</pubDate>
      <description>Plain newer</description>
    </item>
  </channel>
</rss>
"#;

const ATOM: &str = r#"<?xml version="1.0"?>
<feed xmlns="http://www.w3.org/2005/Atom">
  <title>Atom Wire</title>
  <entry>
    <id>urn:atom:1</id>
    <title>Atom title</title>
    <updated>2024-03-01T08:00:00Z</updated>
    <link rel="alternate" href="https://example.com/atom"/>
    <content type="html">&lt;p&gt;Atom &amp; body&lt;/p&gt;</content>
  </entry>
</feed>
"#;

#[test]
fn html_keeps_paragraphs_and_decodes_entities() {
    let text = html_to_text(
        "<p>Hello <b>there</b> &amp; friends</p><script>nope()</script><p>Second&nbsp;line</p>",
    );
    assert_eq!(text, "Hello there & friends\n\nSecond line");
    assert!(!text.contains("nope"));
}

#[test]
fn html_numeric_entities_and_breaks() {
    assert_eq!(html_to_text("a&#65;&#x42;<br>c"), "aAB\nc");
    assert_eq!(html_to_text("  <style>x{}</style> spaced   out  "), "spaced out");
}

#[test]
fn html_text_drops_script_elements() {
    let with = html_to_text("News: <script>track(1 && 2)</script><p>Body</p>");
    assert_eq!(with, html_to_text("News: <p>Body</p>"));
    assert_eq!(with, "News:\nBody");
}

#[test]
fn html_text_is_tidy() {
    let text = html_to_text(" a \r\n\r\n\r\n\t b <p><p><p>c  ");
    assert_eq!(text, "a\n\nb\n\nc");
    assert!(!text.contains('\r'));
    assert!(!text.contains("\n\n\n"));
    assert!(!text.contains(" \n") && !text.contains("\n "));
}

#[test]
fn rss_items_keep_title_link_and_plain_body() {
    let parsed = parse_document(RSS.as_bytes(), "f1").unwrap();
    assert_eq!(parsed.title, "Example Wire");
    assert_eq!(parsed.items.len(), 2);
    let newer = parsed.items.iter().find(|item| item.title == "Newer note").unwrap();
    assert_eq!(newer.link, "https://example.com/newer");
    assert!(newer.published > 0);
    assert_eq!(newer.body, "Hello there\n\nSecond");
    assert!(newer.key.starts_with("f1:"));
}

#[test]
fn atom_content_is_plain_text() {
    let parsed = parse_document(ATOM.as_bytes(), "f2").unwrap();
    assert_eq!(parsed.title, "Atom Wire");
    assert_eq!(parsed.items.len(), 1);
    assert_eq!(parsed.items[0].title, "Atom title");
    assert_eq!(parsed.items[0].link, "https://example.com/atom");
    assert_eq!(parsed.items[0].body, "Atom & body");
}

#[test]
fn junk_is_not_a_feed() {
    let err = parse_document(b"<html>nope</html>", "f1").unwrap_err();
    assert!(!err.is_empty());
}

#[test]
fn stable_keys_are_fnv_hex_under_the_source() {
    let key = stable_key("f1", "");
    assert_eq!(key, "f1:cbf29ce484222325");
    assert_ne!(stable_key("f1", "a"), stable_key("f2", "a"));
    assert_eq!(stable_key("f1", "a"), "f1:af63dc4c8601ec8c");
}

#[test]
fn fetch_rejects_a_non_http_url() {
    let err = fetch_feed("file:///tmp/feed.xml", "f1").unwrap_err();
    assert!(err.contains("http"));
}

#[test]
fn finished_downloads_are_checked_before_parsing() {
    assert_eq!(finish_fetch(Ok(Vec::new()), "f1").unwrap_err(), "The feed response was empty.");
    assert_eq!(finish_fetch(Err("  boom  ".to_string()), "f1").unwrap_err(), "boom");
    let parsed = finish_fetch(Ok(ATOM.as_bytes().to_vec()), "f2").unwrap();
    assert_eq!(parsed.title, "Atom Wire");
    let long = "x".repeat(200);
    let cut = shorten(&long);
    assert_eq!(cut.chars().count(), 181);
    assert!(cut.ends_with('…'));
}

#[test]
fn refresh_events_carry_the_source_id() {
    match run_refresh(RefreshRequest { id: "f3".to_string(), url: "gopher://x".to_string() }) {
        FeedEvent::Failed { id, message } => {
            assert_eq!(id, "f3");
            assert_eq!(message, "Feed URL must be http or https.");
        }
        other => panic!("{other:?}"),
    }
    match refresh_event("f4".to_string(), Err("down".to_string())) {
        FeedEvent::Failed { id, message } => assert_eq!((id.as_str(), message.as_str()), ("f4", "down")),
        other => panic!("{other:?}"),
    }
}

#[test]
fn add_remove_and_items_round_trip_newest_first() {
    let mut store = SubscriptionStore::new();
    assert!(store.add_source("ftp://example.com/feed").is_err());
    let id = store.add_source(" https://example.com/feed.xml ").unwrap();
    assert_eq!(store.add_source("https://example.com/feed.xml").unwrap(), id);
    let parsed = parse_document(STORE_RSS.as_bytes(), &id).unwrap();
    assert!(store.set_title(&id, &parsed.title));
    assert!(store.replace_items(&id, parsed.items));

    // What a save writes is what a load reads back.
    let loaded = SubscriptionStore::from_parts(
        store.next_id(),
        store.sources().to_vec(),
        store.stored_items().to_vec(),
    );
    assert_eq!(loaded.source(&id).unwrap().title, "Example Wire");
    let items = loaded.items(Some(&id));
    assert_eq!(items.len(), 2);
    assert_eq!(items[0].title, "Newer note");
    assert_eq!(items[1].title, "Older note");
    assert_eq!(loaded.items(None).len(), 2);
    assert!(loaded.item(&items[0].id).is_some());

    let mut loaded = loaded;
    assert!(loaded.remove_source(&id));
    assert!(loaded.sources().is_empty());
    assert!(loaded.items(None).is_empty());
}

#[test]
fn store_store_path_is_under_the_gpui_app_id() {
    let path = store_path_in("/var/lib/data");
    assert_eq!(
        std::path::PathBuf::from(path),
        std::path::PathBuf::from("/var/lib/data/ad.neko.mithka.gpui/subscriptions.json")
    );
}

#[test]
fn store_paths_follow_path_join() {
    assert_eq!(store_path_in("/data/"), "/data/ad.neko.mithka.gpui/subscriptions.json");
    assert_eq!(store_path_in(""), "ad.neko.mithka.gpui/subscriptions.json");
}

#[test]
fn add_source_errors_and_ids() {
    let mut store = SubscriptionStore::new();
    assert_eq!(store.add_source("   ").unwrap_err(), "Feed URL is empty.");
    assert_eq!(store.add_source("ftp://x").unwrap_err(), "Feed URL must be http or https.");
    assert_eq!(store.add_source("https://a.example/rss").unwrap(), "f1");
    assert_eq!(store.add_source("https://b.example/rss").unwrap(), "f2");
    assert_eq!(store.sources()[0].title, "a.example");
    let restored = SubscriptionStore::from_parts(u64::MAX, Vec::new(), Vec::new());
    let mut restored = restored;
    assert_eq!(restored.add_source("https://c.example").unwrap(), format!("f{}", u64::MAX));
    assert!(!store.set_title("f1", "   "));
    assert!(!store.set_title("f9", "Named"));
    assert!(store.set_title("f1", "  Named  "));
    assert_eq!(store.source("f1").unwrap().display_name(), "Named");
    assert!(!store.remove_source("f9"));
    assert!(!store.replace_items("f9", Vec::new()));
}

#[test]
fn provisional_titles_are_hosts() {
    assert_eq!(provisional_title("https://example.com/feed.xml"), "example.com");
    assert_eq!(provisional_title("example.com/feed"), "example.com");
    assert_eq!(provisional_title("https:///feed"), "https:///feed");
    assert_eq!(provisional_title("https://host"), "host");
}

#[test]
fn display_name_falls_back_to_the_url() {
    let source = Source { id: "f1".into(), url: "https://x.example".into(), title: "  ".into() };
    assert_eq!(source.display_name(), "https://x.example");
}

fn item(key: &str, title: &str, published: i64) -> ParsedItem {
    ParsedItem {
        key: key.to_string(),
        title: title.to_string(),
        link: String::new(),
        published,
        body: String::new(),
    }
}

#[test]
fn listing_is_newest_first_then_by_title_and_capped_per_source() {
    let mut store = SubscriptionStore::new();
    let a = store.add_source("https://a.example").unwrap();
    let b = store.add_source("https://b.example").unwrap();
    let many: Vec<ParsedItem> = (0..50).map(|n| item(&format!("a{n}"), "t", n)).collect();
    assert!(store.replace_items(&a, many));
    assert_eq!(store.items(Some(&a)).len(), 40);
    assert!(store.replace_items(&b, vec![item("b1", "beta", 5), item("b2", "alpha", 5), item("b3", "zed", 9)]));
    let listed: Vec<String> = store.items(Some(&b)).into_iter().map(|i| i.title).collect();
    assert_eq!(listed, vec!["zed", "alpha", "beta"]);
    let all = store.items(None);
    assert_eq!(all.len(), 43);
    for pair in all.windows(2) {
        assert!(pair[0].published >= pair[1].published);
    }
    assert!(store.replace_items(&a, Vec::new()));
    assert_eq!(store.items(None).len(), 3);
}

#[test]
fn feed_requests_carry_the_fixed_limits() {
    assert!(feed_request("ftp://example.com/feed").is_none());
    assert!(feed_request("example.com/feed").is_none());
    let q = feed_request("https://example.com/feed.xml").unwrap();
    assert_eq!(q.url, "https://example.com/feed.xml");
    assert_eq!(q.user_agent, "mithka-gpui/0.1.0");
    assert_eq!(q.user_agent, USER_AGENT);
    assert_eq!((q.timeout_secs, q.redirects, q.max_bytes), (20, 5, 2_000_000));
    assert_eq!((TIMEOUT_SECS, REDIRECTS, MAX_BYTES), (20, 5, 2_000_000));
}

const NO_IDS: &str = r#"<?xml version="1.0"?>
<rss version="2.0">
  <channel>
    <title>Loose</title>
    <item>
      <title>Linked</title>
      <link>https://example.com/linked</link>
      <description>with a link</description>
    </item>
    <item>
      <title>Bare</title>
      <description>no link, no guid</description>
    </item>
  </channel>
</rss>
"#;

#[test]
fn entries_without_ids_get_the_ids_feed_rs_gives() {
    let first = parse_document(NO_IDS.as_bytes(), "f").unwrap();
    let second = parse_document(NO_IDS.as_bytes(), "f").unwrap();
    assert_eq!(first.items.len(), 2);
    let linked = |feed: &mithka_tdlib::rss::parse::ParsedFeed| {
        feed.items.iter().find(|item| item.title == "Linked").unwrap().key.clone()
    };
    let bare = |feed: &mithka_tdlib::rss::parse::ParsedFeed| {
        feed.items.iter().find(|item| item.title == "Bare").unwrap().key.clone()
    };
    assert_eq!(linked(&first), linked(&second));
    assert_ne!(bare(&first), bare(&second));
    assert!(bare(&first).starts_with("f:"));
}

const MEDIA_FEED: &str = r#"<?xml version="1.0"?>
<rss version="2.0" xmlns:media="http://search.yahoo.com/mrss/">
  <channel>
    <title>Clips</title>
    <item>
      <title>Clip</title>
      <link>https://example.com/clip</link>
      <guid>clip</guid>
      <media:thumbnail url="https://example.com/t.jpg" time="12:05:35.5"/>
      <description>A clip</description>
    </item>
  </channel>
</rss>
"#;

#[test]
fn media_feeds_that_feed_rs_reads_safely_are_parsed() {
    let feed = parse_document(MEDIA_FEED.as_bytes(), "m").unwrap();
    assert_eq!(feed.items.len(), 1);
    assert_eq!(feed.items[0].title, "Clip");
}

#[test]
fn media_feeds_that_could_make_feed_rs_panic_are_refused() {
    let long_time = MEDIA_FEED.replace("12:05:35.5", "123456789012345678901234");
    let refused = "The feed has Media RSS data this reader does not accept.".to_string();
    assert_eq!(parse_document(long_time.as_bytes(), "m").err(), Some(refused.clone()));
    let arabic_digits = MEDIA_FEED.replace("12:05:35.5", "١٢");
    assert_eq!(parse_document(arabic_digits.as_bytes(), "m").err(), Some(refused.clone()));
    let char_ref = MEDIA_FEED.replace("12:05:35.5", "&#49;2");
    assert_eq!(parse_document(char_ref.as_bytes(), "m").err(), Some(refused));
    let plain_non_ascii = RSS.replace("Example Wire", "Exämple Wire");
    assert!(parse_document(plain_non_ascii.as_bytes(), "f1").is_ok());
}
