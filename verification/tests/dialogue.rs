use feedbot::feed::probe_feed;
use feedbot::states::{Dialogue, RunState, StartState};
use feedbot::transitions::{probe_target, run_transition, transition};

const FEED_URL: &str = "https://example.com/feed.xml";

fn fresh() -> RunState {
    RunState::new(7, 42)
}

fn subscribe(s: RunState, url: &str) -> (RunState, Vec<String>) {
    run_transition(s, &format!("/subscribe {}", url), true)
}

#[test]
fn welcome_on_first_message() {
    let (d, msgs) = transition(Dialogue::default(), 7, 42, "", false);
    assert_eq!(msgs, vec!["Welcome".to_string()]);
    match d {
        Dialogue::Run(s) => {
            assert_eq!(s.owner, 7);
            assert_eq!(s.chat_id, 42);
            assert!(s.subscriptions.is_empty());
            assert!(s.saved.is_empty());
            assert_eq!(s.last_msg_id, None);
            assert_eq!(s.last_refresh, None);
        }
        Dialogue::Start(_) => panic!("conversation did not enter its active stage"),
    }
}

#[test]
fn end_to_end_first_subscribe() {
    // A minimal schema-valid feed document, as the subscribe probe fetches it.
    let mut doc = String::new();
    doc.push_str("<rss version=\"2.0\"><channel>");
    doc.push_str("<title>T</title><link>https://example.com/</link><description>D</description>");
    doc.push_str("<item><title>Hello</title><link>https://example.com/a</link>");
    doc.push_str("<description>World</description>");
    doc.push_str("<pubDate>Sun, 31 Dec 2023 00:00:01 +0000</pubDate></item>");
    doc.push_str("</channel></rss>");
    let body: Vec<u8> = doc.into_bytes();
    let input = format!("/subscribe {}", FEED_URL);
    let target = probe_target(&input);
    assert_eq!(target, Some(FEED_URL.to_string()));
    let probe_ok = probe_feed(&body);
    assert!(probe_ok);
    let (d, msgs) = transition(Dialogue::Start(StartState), 7, 42, &input, probe_ok);
    assert_eq!(
        msgs,
        vec![
            "Welcome".to_string(),
            format!("subscribed to: {}", FEED_URL),
        ]
    );
    match d {
        Dialogue::Run(s) => assert_eq!(s.subscriptions, vec![FEED_URL.to_string()]),
        Dialogue::Start(_) => panic!("conversation did not enter its active stage"),
    }
}

#[test]
fn subscribe_twice_is_rejected_once() {
    let (s, msgs) = subscribe(fresh(), FEED_URL);
    assert_eq!(msgs, vec![format!("subscribed to: {}", FEED_URL)]);
    assert_eq!(s.subscriptions.len(), 1);
    let (s, msgs) = subscribe(s, FEED_URL);
    assert_eq!(msgs, vec!["already subscribed".to_string()]);
    assert_eq!(s.subscriptions.len(), 1);
}

#[test]
fn subscription_capacity_is_hard() {
    let mut s = fresh();
    for i in 0..100 {
        let url = format!("https://example{}.com/feed.xml", i);
        let (s2, msgs) = subscribe(s, &url);
        assert_eq!(msgs, vec![format!("subscribed to: {}", url)]);
        s = s2;
    }
    assert_eq!(s.subscriptions.len(), 100);
    let (s, msgs) = subscribe(s, "https://one-too-many.example/feed.xml");
    assert_eq!(msgs, vec!["too many subscriptions".to_string()]);
    assert_eq!(s.subscriptions.len(), 100);
}

#[test]
fn unsubscribe_zero_shifts_the_rest() {
    let (s, _) = subscribe(fresh(), "https://a.example/feed");
    let (s, _) = subscribe(s, "https://b.example/feed");
    let (s, _) = subscribe(s, "https://c.example/feed");
    let (s, msgs) = run_transition(s, "/unsubscribe 0", false);
    assert_eq!(msgs, vec!["removed".to_string()]);
    assert_eq!(
        s.subscriptions,
        vec![
            "https://b.example/feed".to_string(),
            "https://c.example/feed".to_string(),
        ]
    );
}

#[test]
fn unsubscribe_out_of_range_is_usage() {
    let (s, _) = subscribe(fresh(), "https://a.example/feed");
    let before = s.subscriptions.clone();
    let (s, msgs) = run_transition(s, "/unsubscribe 1", false);
    assert_eq!(msgs, vec!["Usage: /unsubscribe <id>".to_string()]);
    assert_eq!(s.subscriptions, before);
    let (s, msgs) = run_transition(s, "/unsubscribe x", false);
    assert_eq!(msgs, vec!["Usage: /unsubscribe <id>".to_string()]);
    assert_eq!(s.subscriptions, before);
    let (s, msgs) = run_transition(s, "/unsubscribe", false);
    assert_eq!(msgs, vec!["Usage: /unsubscribe <id>".to_string()]);
    assert_eq!(s.subscriptions, before);
}

#[test]
fn save_needs_an_issued_id() {
    // No notification was ever issued: nothing may be saved.
    let (s, msgs) = run_transition(fresh(), "/save 0", false);
    assert_eq!(msgs, vec!["invalid id".to_string()]);
    assert!(s.saved.is_empty());

    let mut s = fresh();
    s.last_msg_id = Some(5);
    let (s, msgs) = run_transition(s, "/save 3", false);
    assert_eq!(msgs, vec!["saved!".to_string()]);
    assert_eq!(s.saved, vec![3]);
    let (s, msgs) = run_transition(s, "/save 5", false);
    assert_eq!(msgs, vec!["invalid id".to_string()]);
    assert_eq!(s.saved, vec![3]);
    let (s, msgs) = run_transition(s, "/save 7", false);
    assert_eq!(msgs, vec!["invalid id".to_string()]);
    assert_eq!(s.saved, vec![3]);
    let (s, msgs) = run_transition(s, "/save x", false);
    assert_eq!(msgs, vec!["invalid id".to_string()]);
    assert_eq!(s.saved, vec![3]);
}

#[test]
fn subscriptions_listing_is_indexed() {
    let (s, msgs) = run_transition(fresh(), "/subscriptions", false);
    assert_eq!(msgs, vec!["your subscriptions: \n".to_string()]);
    let (s, _) = subscribe(s, "https://a.example/feed");
    let (s, _) = subscribe(s, "https://b.example/feed");
    let (_, msgs) = run_transition(s, "/subscriptions", false);
    assert_eq!(
        msgs,
        vec![
            "your subscriptions: \n0: https://a.example/feed\n1: https://b.example/feed"
                .to_string()
        ]
    );
}

#[test]
fn quiet_inputs_are_no_ops() {
    let s = fresh();
    let (s, msgs) = run_transition(s, "", true);
    assert!(msgs.is_empty());
    let (s, msgs) = run_transition(s, "/help", true);
    assert!(msgs.is_empty());
    let (s, msgs) = run_transition(s, "hello there", true);
    assert!(msgs.is_empty());
    assert!(s.subscriptions.is_empty());
}

#[test]
fn subscribe_without_url_is_invalid() {
    let (s, msgs) = run_transition(fresh(), "/subscribe", true);
    assert_eq!(msgs, vec!["invalid url".to_string()]);
    assert!(s.subscriptions.is_empty());
    let (s, msgs) = run_transition(s, "/subscribe ", true);
    assert_eq!(msgs, vec!["invalid url".to_string()]);
    assert!(s.subscriptions.is_empty());
}

#[test]
fn malformed_url_rejected_before_any_probe() {
    // Even a passing probe flag cannot rescue a URL that fails the
    // syntactic check.
    let (s, msgs) = run_transition(fresh(), "/subscribe notaurl", true);
    assert_eq!(msgs, vec!["invalid url".to_string()]);
    assert!(s.subscriptions.is_empty());
    let (s, msgs) = run_transition(s, "/subscribe http://localhost/feed", true);
    assert_eq!(msgs, vec!["invalid url".to_string()]);
    assert!(s.subscriptions.is_empty());
}

#[test]
fn failed_probe_rejects_subscribe() {
    let (s, msgs) = run_transition(fresh(), "/subscribe https://example.com/feed.xml", false);
    assert_eq!(msgs, vec!["invalid url".to_string()]);
    assert!(s.subscriptions.is_empty());
}
