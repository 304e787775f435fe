use http::header::{HeaderName, HeaderValue, HOST};
use http::HeaderMap;
use sse_server::host::{host_is_allowed, normalize_authority, text_is_allowed};
use sse_server::{SseServer, SseServerConfig};

fn hosts(list: &[&str]) -> Vec<String> {
    list.iter().map(|h| h.to_string()).collect()
}

fn default_hosts() -> Vec<String> {
    SseServerConfig::default().allowed_hosts
}

fn header(value: &[u8]) -> HeaderMap {
    let mut headers = HeaderMap::new();
    headers.insert(HOST, HeaderValue::from_bytes(value).unwrap());
    headers
}

#[test]
fn the_default_list_admits_the_machine_itself() {
    let list = default_hosts();
    for text in [
        "localhost",
        "localhost:8080",
        "LocalHost:1",
        "127.0.0.1",
        "127.0.0.1:65535",
        "[::1]",
        "[::1]:8080",
    ] {
        assert!(text_is_allowed(Some(text), &list), "{}", text);
    }
}

#[test]
fn the_default_list_shuts_out_other_hosts() {
    let list = default_hosts();
    for text in [
        "example.com",
        "localhost.example.com",
        "127.0.0.2",
        "[::2]:80",
        "localhost@example.com",
    ] {
        assert!(!text_is_allowed(Some(text), &list), "{}", text);
    }
}

#[test]
fn a_text_that_is_no_authority_needs_an_empty_list() {
    for text in ["", "::1", "a:b:c", "a b", "a/b", "[::1", "caf\u{e9}"] {
        assert!(!text_is_allowed(Some(text), &default_hosts()), "{}", text);
        assert!(text_is_allowed(Some(text), &hosts(&[])), "{}", text);
    }
    assert!(!text_is_allowed(None, &default_hosts()));
    assert!(text_is_allowed(None, &hosts(&[])));
}

#[test]
fn an_empty_list_admits_all() {
    assert!(text_is_allowed(Some("attacker.example"), &hosts(&[])));
}

#[test]
fn an_entry_with_a_port_asks_for_that_port() {
    let list = hosts(&["example.com:8443"]);
    assert!(text_is_allowed(Some("example.com:8443"), &list));
    assert!(text_is_allowed(Some("EXAMPLE.com:8443"), &list));
    assert!(!text_is_allowed(Some("example.com:80"), &list));
    assert!(!text_is_allowed(Some("example.com"), &list));
}

#[test]
fn entries_are_trimmed_and_blank_ones_count_for_nothing() {
    assert!(text_is_allowed(
        Some("example.com"),
        &hosts(&[" \u{a0}", "\tExample.COM \u{3000}"])
    ));
    assert!(!text_is_allowed(Some("example.com"), &hosts(&["", "  "])));
}

#[test]
fn bracketed_and_bare_addresses_are_the_same() {
    assert!(text_is_allowed(Some("[FE80::1]:1"), &hosts(&["fe80::1"])));
    assert!(text_is_allowed(Some("[fe80::1]"), &hosts(&["[FE80::1]"])));
    assert!(!text_is_allowed(
        Some("[fe80::1]:1"),
        &hosts(&["[fe80::1]:2"])
    ));
}

#[test]
fn a_longer_list_admits_more() {
    assert!(!text_is_allowed(Some("b.example"), &hosts(&["a.example"])));
    assert!(text_is_allowed(
        Some("b.example"),
        &hosts(&["a.example", "b.example"])
    ));
    assert!(text_is_allowed(
        Some("a.example"),
        &hosts(&["a.example", "b.example"])
    ));
}

#[test]
fn authorities_are_normalized() {
    let a = normalize_authority("[[FE80::A]]", Some(80));
    assert_eq!(a.host, "fe80::a");
    assert_eq!(a.port, Some(80));
    let b = normalize_authority("\u{c9}A.Example", None);
    assert_eq!(b.host, "\u{c9}a.example");
    assert_eq!(b.port, None);
}

#[test]
fn an_authority_is_held_against_the_list() {
    let a = normalize_authority("Example.com", Some(80));
    assert!(host_is_allowed(&a, &hosts(&["example.com"])));
    assert!(host_is_allowed(&a, &hosts(&["other", "example.com:80"])));
    assert!(!host_is_allowed(&a, &hosts(&["example.com:81"])));
    assert!(host_is_allowed(&a, &hosts(&[])));
}

#[test]
fn the_port_is_the_number_after_the_last_colon() {
    let list = hosts(&["example.com:80"]);
    assert!(text_is_allowed(Some("example.com:0080"), &list));
    assert!(text_is_allowed(Some("example.com:+80"), &list));
    assert!(text_is_allowed(Some("user:pw@example.com:80"), &list));
    assert!(!text_is_allowed(Some("user:80@example.com"), &list));
    assert!(!text_is_allowed(Some("example.com:65616"), &list));
}

#[test]
fn the_host_header_is_read_from_the_request() {
    let server = SseServer::new(|| Ok::<u8, std::io::Error>(0), SseServerConfig::default());
    assert!(server.host_is_allowed(&header(b"localhost:8080")));
    assert!(!server.host_is_allowed(&header(b"example.com")));
    assert!(!server.host_is_allowed(&header(b"localhost\xff")));
    assert!(!server.host_is_allowed(&HeaderMap::new()));
    let mut other = HeaderMap::new();
    other.insert(
        HeaderName::from_static("x-host"),
        HeaderValue::from_static("localhost"),
    );
    assert!(!server.host_is_allowed(&other));
    let mut two = header(b"localhost");
    two.append(HOST, HeaderValue::from_static("example.com"));
    assert!(server.host_is_allowed(&two));
    let mut swapped = header(b"example.com");
    swapped.append(HOST, HeaderValue::from_static("localhost"));
    assert!(!server.host_is_allowed(&swapped));
}

#[test]
fn without_a_list_any_header_will_do() {
    let server = SseServer::new(
        || Ok::<u8, std::io::Error>(0),
        SseServerConfig::default().disable_allowed_hosts(),
    );
    assert!(server.host_is_allowed(&HeaderMap::new()));
    assert!(server.host_is_allowed(&header(b"\xff")));
    assert!(server.host_is_allowed(&header(b"example.com")));
}
