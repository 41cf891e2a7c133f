use feedbot::feed::{
    body_notifications, conv_notifications, feed_notifications, probe_feed, sweep_notifications,
    Feed, FeedItem,
};
use feedbot::states::RunState;

fn item(
    title: Option<&str>,
    description: Option<&str>,
    link: Option<&str>,
    pub_date: Option<&str>,
) -> FeedItem {
    FeedItem {
        title: title.map(str::to_string),
        description: description.map(str::to_string),
        link: link.map(str::to_string),
        pub_date: pub_date.map(str::to_string),
    }
}

fn epoch_ms(rfc2822: &str) -> i64 {
    chrono::DateTime::parse_from_rfc2822(rfc2822)
        .unwrap()
        .timestamp_millis()
}

fn valid_feed_body(pub_date: &str) -> Vec<u8> {
    let mut doc = String::new();
    doc.push_str("<rss version=\"2.0\"><channel>");
    doc.push_str("<title>T</title><link>https://example.com/</link><description>D</description>");
    doc.push_str("<item><title>Hello</title><link>https://example.com/a</link>");
    doc.push_str("<description>World</description>");
    doc.push_str(&format!("<pubDate>{}</pubDate></item>", pub_date));
    doc.push_str("</channel></rss>");
    doc.into_bytes()
}

#[test]
fn sweep_announces_only_items_after_the_last_run() {
    let last_run = epoch_ms("Sun, 31 Dec 2023 00:00:00 +0000");
    let feed = Feed {
        items: vec![
            item(
                Some("old"),
                Some("two seconds early"),
                Some("https://example.com/1"),
                Some("Sat, 30 Dec 2023 23:59:58 +0000"),
            ),
            item(
                Some("older"),
                Some("one second early"),
                Some("https://example.com/2"),
                Some("Sat, 30 Dec 2023 23:59:59 +0000"),
            ),
            item(
                Some("new"),
                Some("one second late"),
                Some("https://example.com/3"),
                Some("Sun, 31 Dec 2023 00:00:01 +0000"),
            ),
        ],
    };
    let notes = feed_notifications(&feed, last_run);
    assert_eq!(notes, vec![
        "new: one second late - https://example.com/3".to_string()
    ]);
}

#[test]
fn item_at_the_cursor_is_not_announced() {
    let stamp = "Sun, 31 Dec 2023 00:00:00 +0000";
    let feed = Feed {
        items: vec![item(Some("t"), None, None, Some(stamp))],
    };
    assert!(feed_notifications(&feed, epoch_ms(stamp)).is_empty());
}

#[test]
fn missing_or_malformed_dates_are_skipped() {
    let feed = Feed {
        items: vec![
            item(Some("no date"), None, None, None),
            item(Some("bad date"), None, None, Some("yesterdayish")),
        ],
    };
    assert!(feed_notifications(&feed, 0).is_empty());
}

#[test]
fn absent_fields_get_placeholders() {
    let feed = Feed {
        items: vec![item(None, None, None, Some("Sun, 31 Dec 2023 00:00:01 +0000"))],
    };
    let notes = feed_notifications(&feed, 0);
    assert_eq!(notes, vec!["<no title>: <no description> - <no link>".to_string()]);
}

#[test]
fn long_descriptions_are_truncated_to_thirty_characters() {
    let stamp = "Sun, 31 Dec 2023 00:00:01 +0000";
    let long = "abcdefghijklmnopqrstuvwxyz0123456789";
    let exact = "abcdefghijklmnopqrstuvwxyz0123";
    let feed = Feed {
        items: vec![
            item(Some("a"), Some(long), Some("https://e.com/x"), Some(stamp)),
            item(Some("b"), Some(exact), Some("https://e.com/y"), Some(stamp)),
        ],
    };
    let notes = feed_notifications(&feed, 0);
    assert_eq!(notes, vec![
        "a: abcdefghijklmnopqrstuvwxyz0123... - https://e.com/x".to_string(),
        "b: abcdefghijklmnopqrstuvwxyz0123 - https://e.com/y".to_string(),
    ]);
}

#[test]
fn unparseable_bodies_contribute_nothing() {
    assert!(body_notifications(&b"this is not xml".to_vec(), 0).is_empty());
    assert!(body_notifications(&Vec::new(), 0).is_empty());
}

#[test]
fn parsed_bodies_contribute_their_new_items() {
    let body = valid_feed_body("Sun, 31 Dec 2023 00:00:01 +0000");
    let notes = body_notifications(&body, epoch_ms("Sun, 31 Dec 2023 00:00:00 +0000"));
    assert_eq!(notes, vec!["Hello: World - https://example.com/a".to_string()]);
}

#[test]
fn failed_fetch_is_isolated_within_a_conversation() {
    let mut state = RunState::new(1, 10);
    state
        .subscriptions
        .push("https://dead.example/feed".to_string());
    state
        .subscriptions
        .push("https://live.example/feed".to_string());
    let bodies = vec![
        None,
        Some(valid_feed_body("Sun, 31 Dec 2023 00:00:01 +0000")),
    ];
    let notes = conv_notifications(&state, &bodies, 0);
    assert_eq!(notes, vec!["Hello: World - https://example.com/a".to_string()]);
}

#[test]
fn failed_conversation_is_isolated_within_a_sweep() {
    let mut broken = RunState::new(1, 10);
    broken
        .subscriptions
        .push("https://dead.example/feed".to_string());
    let mut healthy = RunState::new(2, 20);
    healthy
        .subscriptions
        .push("https://live.example/feed".to_string());
    let convs = vec![
        (broken, vec![None]),
        (
            healthy,
            vec![Some(valid_feed_body("Sun, 31 Dec 2023 00:00:01 +0000"))],
        ),
    ];
    let out = sweep_notifications(&convs, 0);
    assert_eq!(out.len(), 2);
    assert_eq!(out[0].0, 10);
    assert!(out[0].1.is_empty());
    assert_eq!(out[1].0, 20);
    assert_eq!(
        out[1].1,
        vec!["Hello: World - https://example.com/a".to_string()]
    );
}

#[test]
fn probe_accepts_only_schema_valid_feeds() {
    assert!(probe_feed(&valid_feed_body("Sun, 31 Dec 2023 00:00:01 +0000")));
    assert!(!probe_feed(&b"not a feed at all".to_vec()));
    assert!(!probe_feed(&Vec::new()));
    // Parses as RSS but fails schema validation: the channel link is no URL.
    let mut doc = String::new();
    doc.push_str("<rss version=\"2.0\"><channel>");
    doc.push_str("<title>T</title><link>not a url</link><description>D</description>");
    doc.push_str("</channel></rss>");
    assert!(!probe_feed(&doc.into_bytes()));
}
