use sse_server::{endpoint_payload, extract_session_id, session_id, SessionId, SseServerConfig};

fn sample_sid() -> SessionId {
    "abc".to_string()
}

#[test]
fn endpoint_payload_includes_session_id() {
    let cfg = SseServerConfig::default();
    assert_eq!(
        endpoint_payload(&cfg, &sample_sid()),
        "/message?session_id=abc"
    );
}

#[test]
fn endpoint_payload_uses_prefix() {
    let cfg = SseServerConfig::default().with_endpoint_prefix("/roon");
    assert_eq!(
        endpoint_payload(&cfg, &sample_sid()),
        "/roon/message?session_id=abc"
    );
}

#[test]
fn endpoint_payload_uses_custom_post_path() {
    let cfg = SseServerConfig::default().with_post_path("/messages");
    assert_eq!(
        endpoint_payload(&cfg, &sample_sid()),
        "/messages?session_id=abc"
    );
}

#[test]
fn extract_session_id_parses_query() {
    assert_eq!(
        extract_session_id(Some("foo=1&session_id=abc&bar=2")).as_deref(),
        Some("abc")
    );
    assert!(extract_session_id(Some("foo=1")).is_none());
    assert!(extract_session_id(None).is_none());
}

#[test]
fn extract_session_id_handles_first_pair() {
    assert_eq!(
        extract_session_id(Some("session_id=first")).as_deref(),
        Some("first")
    );
}

#[test]
fn the_first_session_id_counts() {
    assert_eq!(
        extract_session_id(Some("session_id=a&session_id=b")).as_deref(),
        Some("a")
    );
}

#[test]
fn the_value_runs_to_the_next_pair() {
    assert_eq!(
        extract_session_id(Some("session_id=a=b=c&x=1")).as_deref(),
        Some("a=b=c")
    );
    assert_eq!(extract_session_id(Some("session_id=")).as_deref(), Some(""));
    assert_eq!(
        extract_session_id(Some("session_id=caf\u{e9}&x=1")).as_deref(),
        Some("caf\u{e9}")
    );
}

#[test]
fn a_pair_without_a_value_is_passed_over() {
    assert_eq!(
        extract_session_id(Some("flag&session_id=abc")).as_deref(),
        Some("abc")
    );
    assert_eq!(
        extract_session_id(Some("&session_id=abc")).as_deref(),
        Some("abc")
    );
    assert_eq!(
        extract_session_id(Some("session_id&session_id=abc&")).as_deref(),
        Some("abc")
    );
    assert_eq!(
        extract_session_id(Some("session_id=abc&foo")).as_deref(),
        Some("abc")
    );
    assert!(extract_session_id(Some("")).is_none());
    assert!(extract_session_id(Some("&")).is_none());
    assert!(extract_session_id(Some("session_id")).is_none());
}

#[test]
fn the_key_has_to_match_exactly() {
    assert!(extract_session_id(Some("Session_id=abc")).is_none());
    assert!(extract_session_id(Some("session_ids=abc")).is_none());
    assert!(extract_session_id(Some("xsession_id=abc&session=1")).is_none());
}

#[test]
fn session_ids_are_random_uuids() {
    let a = session_id();
    let b = session_id();
    assert_ne!(a, b);
    for sid in [a, b] {
        assert_eq!(sid.len(), 36);
        for (i, c) in sid.chars().enumerate() {
            if i == 8 || i == 13 || i == 18 || i == 23 {
                assert_eq!(c, '-');
            } else {
                assert!(c.is_ascii_digit() || ('a'..='f').contains(&c));
            }
        }
        assert_eq!(sid.as_bytes()[14], b'4');
        assert!(b"89ab".contains(&sid.as_bytes()[19]));
    }
}

#[test]
fn the_announced_address_names_its_session() {
    let cfg = SseServerConfig::default()
        .with_post_path("/post")
        .with_endpoint_prefix("/behind/proxy");
    let sid = session_id();
    let address = endpoint_payload(&cfg, &sid);
    let (path, query) = address.split_once('?').unwrap();
    assert_eq!(path, "/behind/proxy/post");
    assert_eq!(extract_session_id(Some(query)), Some(sid));
}

#[test]
fn two_sessions_get_two_addresses() {
    let cfg = SseServerConfig::default();
    assert_ne!(
        endpoint_payload(&cfg, &"a".to_string()),
        endpoint_payload(&cfg, &"b".to_string())
    );
}
