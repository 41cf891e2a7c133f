use feedbot::netcheck::{check_url, is_internal_host};
use feedbot::transitions::probe_target;

#[test]
fn internal_hosts_never_reach_the_probe() {
    let internal_urls = [
        "http://127.0.0.1/feed.xml",
        "http://127.9.8.7/feed.xml",
        "http://10.0.0.1/feed.xml",
        "http://10.255.255.255/feed.xml",
        "http://172.16.0.1/feed.xml",
        "http://172.31.255.255/feed.xml",
        "http://192.168.0.1/feed.xml",
        "http://192.168.255.1/feed.xml",
        "http://[::1]/feed.xml",
        "http://[fc00::1]/feed.xml",
        "http://[fd12:3456::1]/feed.xml",
        "http://localhost/feed.xml",
        "https://localhost/feed.xml",
        "http://LOCALHOST/feed.xml",
    ];
    for url in internal_urls {
        assert!(!check_url(url), "accepted internal url: {}", url);
        let input = format!("/subscribe {}", url);
        assert_eq!(probe_target(&input), None, "probed internal url: {}", url);
    }
}

#[test]
fn leading_zero_addresses_are_caught() {
    // The URL parser canonicalizes dotted-quad hosts (reading leading-zero
    // components as octal), so the range check sees the canonical address:
    // 0177.0.0.1 is 127.0.0.1, and 010.1.2.3 is the public 8.1.2.3.
    assert!(!check_url("http://0177.0.0.1/feed.xml"));
    assert!(check_url("http://010.1.2.3/feed.xml"));
    // Handed a host directly, the range check reads components as decimal.
    assert!(is_internal_host("010.0.0.1"));
    assert!(is_internal_host("127.000.000.001"));
}

#[test]
fn internal_host_forms() {
    assert!(is_internal_host("localhost"));
    assert!(is_internal_host("127.0.0.1"));
    assert!(is_internal_host("10.1.2.3"));
    assert!(is_internal_host("172.16.0.1"));
    assert!(is_internal_host("172.31.1.1"));
    assert!(is_internal_host("192.168.1.1"));
    assert!(is_internal_host("::1"));
    assert!(is_internal_host("[::1]"));
    assert!(is_internal_host("fc00::1"));
    assert!(is_internal_host("[fd00::1]"));
    assert!(is_internal_host("FD00::1"));
}

#[test]
fn public_host_forms() {
    assert!(!is_internal_host("example.com"));
    assert!(!is_internal_host("8.8.8.8"));
    assert!(!is_internal_host("172.15.0.1"));
    assert!(!is_internal_host("172.32.0.1"));
    assert!(!is_internal_host("192.169.0.1"));
    assert!(!is_internal_host("128.0.0.1"));
    assert!(!is_internal_host("11.0.0.1"));
    assert!(!is_internal_host("[2001:db8::1]"));
    // Out-of-range or malformed components are not a dotted quad at all.
    assert!(!is_internal_host("127.0.0.256"));
    assert!(!is_internal_host("127.0.0"));
    assert!(!is_internal_host("127.0.0.0.1"));
    assert!(!is_internal_host("127.0.0.1a"));
}

#[test]
fn schemes_other_than_http_are_refused() {
    assert!(!check_url("ftp://example.com/feed.xml"));
    assert!(!check_url("file:///etc/hostname"));
    assert!(!check_url("mailto:user@example.com"));
    assert!(!check_url("gopher://example.com/"));
}

#[test]
fn malformed_urls_are_refused() {
    assert!(!check_url(""));
    assert!(!check_url("not a url"));
    assert!(!check_url("https://"));
    assert!(!check_url("/relative/path"));
    assert!(!check_url("example.com/feed.xml"));
}

#[test]
fn public_urls_pass_the_syntactic_check() {
    assert!(check_url("https://example.com/feed.xml"));
    assert!(check_url("http://example.org/rss"));
    assert!(check_url("https://blog.example.net/atom.xml?alt=rss"));
    assert!(check_url("http://93.184.216.34/feed"));
}
