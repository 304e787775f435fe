use http::header::{HeaderValue, HOST};
use http::HeaderMap;
use serde_json::Value;
use sse_server::server::{route_request, set_up_session, Route};
use sse_server::sessions::SseSessionEntry;
use sse_server::stream::Phase;
use sse_server::{endpoint_payload, extract_session_id, SseServer, SseServerConfig};
use std::sync::Arc;
use std::time::Duration;
use tokio_util::sync::CancellationToken;

fn local() -> HeaderMap {
    let mut headers = HeaderMap::new();
    headers.insert(HOST, HeaderValue::from_static("localhost:8080"));
    headers
}

fn refused(route: Route) -> (u16, String) {
    match route {
        Route::Respond(reply) => (reply.status, reply.body),
        other => panic!("{:?}", other),
    }
}

#[test]
fn a_get_of_the_stream_path_opens_a_stream() {
    let server = SseServer::new(|| Ok::<u8, std::io::Error>(0), SseServerConfig::default());
    assert!(matches!(
        server.call("GET", "/sse", None, &local()),
        Route::OpenStream
    ));
    assert!(matches!(
        server.call("GET", "/sse", Some("x=1"), &local()),
        Route::OpenStream
    ));
}

#[test]
fn a_post_to_the_message_path_goes_to_its_session() {
    let server = SseServer::new(|| Ok::<u8, std::io::Error>(0), SseServerConfig::default());
    match server.call("POST", "/message", Some("a=1&session_id=abc"), &local()) {
        Route::Post(sid) => assert_eq!(sid, "abc"),
        other => panic!("{:?}", other),
    }
}

#[test]
fn a_parameter_without_a_value_does_not_hide_the_session() {
    let server = SseServer::new(|| Ok::<u8, std::io::Error>(0), SseServerConfig::default());
    for query in ["flag&session_id=abc", "&session_id=abc", "session_id&session_id=abc"] {
        match server.call("POST", "/message", Some(query), &local()) {
            Route::Post(sid) => assert_eq!(sid, "abc"),
            other => panic!("{:?}", other),
        }
    }
}

#[test]
fn a_post_without_a_session_is_a_bad_request() {
    let server = SseServer::new(|| Ok::<u8, std::io::Error>(0), SseServerConfig::default());
    for query in [None, Some(""), Some("session=abc")] {
        assert_eq!(
            refused(server.call("POST", "/message", query, &local())),
            (400, "missing session_id".to_string())
        );
    }
}

#[test]
fn a_foreign_host_is_refused_whatever_it_asks_for() {
    let server = SseServer::new(|| Ok::<u8, std::io::Error>(0), SseServerConfig::default());
    let mut foreign = HeaderMap::new();
    foreign.insert(HOST, HeaderValue::from_static("attacker.example"));
    for (method, path) in [("GET", "/sse"), ("POST", "/message"), ("PUT", "/nowhere")] {
        assert_eq!(
            refused(server.call(method, path, Some("session_id=a"), &foreign)),
            (403, "Forbidden Host".to_string())
        );
        assert_eq!(
            refused(server.call(method, path, Some("session_id=a"), &HeaderMap::new())),
            (403, "Forbidden Host".to_string())
        );
    }
}

#[test]
fn nothing_else_is_served() {
    let server = SseServer::new(|| Ok::<u8, std::io::Error>(0), SseServerConfig::default());
    for (method, path) in [
        ("POST", "/sse"),
        ("GET", "/message"),
        ("GET", "/sse/"),
        ("GET", "/"),
        ("get", "/sse"),
        ("DELETE", "/message"),
    ] {
        assert_eq!(
            refused(server.call(method, path, Some("session_id=a"), &local())),
            (404, "Not Found".to_string())
        );
    }
}

#[test]
fn one_path_can_serve_both_endpoints() {
    let config = SseServerConfig::default()
        .with_sse_path("/mcp")
        .with_post_path("/mcp");
    assert!(matches!(
        route_request(&config, "GET", "/mcp", None, true),
        Route::OpenStream
    ));
    assert!(matches!(
        route_request(&config, "POST", "/mcp", Some("session_id=a"), true),
        Route::Post(_)
    ));
    assert_eq!(
        refused(route_request(&config, "GET", "/mcp", None, false)).0,
        403
    );
}

#[test]
fn an_announced_address_is_routed_back() {
    let config = SseServerConfig::default().with_endpoint_prefix("/proxy");
    let sid = "0f-1".to_string();
    let address = endpoint_payload(&config, &sid);
    let query = address.split_once('?').unwrap().1;
    match route_request(&config, "POST", "/message", Some(query), true) {
        Route::Post(found) => assert_eq!(found, sid),
        other => panic!("{:?}", other),
    }
}

#[test]
fn a_new_session_is_set_up_as_configured() {
    let config = SseServerConfig::default()
        .with_post_path("/m")
        .with_post_inbound_buffer(3)
        .with_sse_outbound_buffer(5)
        .with_keep_alive(Some(Duration::from_millis(100)));
    let server = SseServer::new(|| Ok("service"), config);
    let session = server.handle_get().ok().unwrap();
    assert_eq!(session.service, "service");
    assert_eq!(session.session_id.len(), 36);
    assert_eq!(session.entry.inbound.max_capacity(), 3);
    assert_eq!(session.outbound.max_capacity(), 5);
    let mut inbound = session.inbound;
    session.entry.inbound.try_send(Value::Bool(true)).unwrap();
    assert_eq!(inbound.try_recv().unwrap(), Value::Bool(true));
    let mut messages = session.messages;
    session.outbound.try_send(Value::Bool(false)).unwrap();
    assert_eq!(messages.try_recv().unwrap(), Value::Bool(false));
    assert_eq!(session.keep_alive, Some(Duration::from_millis(100)));
    assert_eq!(session.head.status, 200);
    let headers: Vec<(&str, &str)> = session
        .head
        .headers
        .iter()
        .map(|(name, value)| (name.as_str(), value.as_str()))
        .collect();
    assert_eq!(
        headers,
        vec![
            ("content-type", "text/event-stream; charset=utf-8"),
            ("cache-control", "no-store"),
            ("x-accel-buffering", "no"),
        ]
    );
    let mut stream = session.stream;
    assert_eq!(stream.phase(), Phase::Start);
    let first = stream.open(false).unwrap();
    assert_eq!(first.event, "endpoint");
    assert_eq!(first.data, format!("/m?session_id={}", session.session_id));
    let query = first.data.split_once('?').unwrap().1.to_string();
    assert_eq!(extract_session_id(Some(&query)), Some(session.session_id));
}

#[test]
fn a_given_id_and_service_are_taken_over() {
    let session = set_up_session(&SseServerConfig::default(), "abc".to_string(), 7u8);
    assert_eq!(session.session_id, "abc");
    assert_eq!(session.service, 7);
    assert_eq!(session.entry.inbound.max_capacity(), 32);
    assert_eq!(session.outbound.max_capacity(), 32);
    assert_eq!(session.keep_alive, Some(Duration::from_secs(15)));
}

#[test]
fn cancelling_the_server_cancels_its_sessions_and_not_the_other_way() {
    let token = CancellationToken::new();
    let config = SseServerConfig::default().with_cancellation_token(token.clone());
    let first = set_up_session(&config, "a".to_string(), ());
    let second = set_up_session(&config, "b".to_string(), ());
    first.entry.cancel.cancel();
    assert!(!second.entry.cancel.is_cancelled());
    assert!(!token.is_cancelled());
    token.cancel();
    assert!(second.entry.cancel.is_cancelled());
}

#[test]
fn a_service_that_cannot_be_made_is_an_internal_error() {
    let server = SseServer::new(
        || Err::<u8, std::io::Error>(std::io::Error::new(std::io::ErrorKind::Other, "no luck")),
        SseServerConfig::default(),
    );
    let reply = server.handle_get().err().unwrap();
    assert_eq!(reply.status, 500);
    assert_eq!(
        reply.body,
        "Encounter an error when create service: no luck"
    );
}

#[test]
fn concurrent_sessions_get_ids_of_their_own() {
    let server = SseServer::new(|| Ok::<u8, std::io::Error>(0), SseServerConfig::default());
    let a = server.handle_get().ok().unwrap();
    let b = server.handle_get().ok().unwrap();
    assert_ne!(a.session_id, b.session_id);
}

#[test]
fn clones_share_their_sessions() {
    let server = SseServer::new(|| Ok::<u8, std::io::Error>(0), SseServerConfig::default());
    let clone = server.clone();
    assert!(Arc::ptr_eq(&server.sessions, &clone.sessions));
    assert!(Arc::ptr_eq(
        &server.service_factory,
        &clone.service_factory
    ));
    assert!(server.sessions.try_read().unwrap().find_session("a").is_err());
    let (inbound, _receiver) = tokio::sync::mpsc::channel(1);
    let entry = SseSessionEntry {
        inbound,
        cancel: CancellationToken::new(),
    };
    server
        .sessions
        .try_write()
        .unwrap()
        .register("a".to_string(), entry, false);
    assert!(clone.sessions.try_read().unwrap().find_session("a").is_ok());
}
