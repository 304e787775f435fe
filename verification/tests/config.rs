use sse_server::SseServerConfig;
use std::time::Duration;
use tokio_util::sync::CancellationToken;

#[test]
fn config_setters_round_trip() {
    let token = CancellationToken::new();
    let cfg = SseServerConfig::default()
        .with_sse_path("/x")
        .with_post_path("/y/")
        .with_endpoint_prefix("/svc")
        .with_allowed_hosts(vec!["example.com"])
        .with_keep_alive(Some(Duration::from_secs(5)))
        .with_sse_outbound_buffer(64)
        .with_post_inbound_buffer(8);
    assert_eq!(cfg.sse_path, "/x");
    assert_eq!(cfg.post_path, "/y/");
    assert_eq!(cfg.endpoint_prefix.as_deref(), Some("/svc"));
    assert_eq!(cfg.allowed_hosts, vec!["example.com".to_string()]);
    assert_eq!(cfg.keep_alive, Some(Duration::from_secs(5)));
    assert_eq!(cfg.sse_outbound_buffer, 64);
    assert_eq!(cfg.post_inbound_buffer, 8);
    let _ = token;
}

#[test]
fn disable_allowed_hosts_clears_list() {
    let cfg = SseServerConfig::default()
        .with_allowed_hosts(vec!["example.com", "example.org"])
        .disable_allowed_hosts();
    assert!(cfg.allowed_hosts.is_empty());
}

#[test]
fn with_keep_alive_none_disables() {
    let cfg = SseServerConfig::default().with_keep_alive(None);
    assert!(cfg.keep_alive.is_none());
}

#[test]
fn the_defaults() {
    let cfg = SseServerConfig::default();
    assert_eq!(cfg.sse_path, "/sse");
    assert_eq!(cfg.post_path, "/message");
    assert_eq!(cfg.endpoint_prefix, None);
    assert_eq!(cfg.allowed_hosts, vec!["localhost", "127.0.0.1", "::1"]);
    assert_eq!(cfg.keep_alive, Some(Duration::from_secs(15)));
    assert_eq!(cfg.sse_outbound_buffer, 32);
    assert_eq!(cfg.post_inbound_buffer, 32);
    assert!(!cfg.cancellation_token.is_cancelled());
}

#[test]
fn with_allowed_hosts_keeps_the_order() {
    let cfg = SseServerConfig::default().with_allowed_hosts(vec![
        "b.example".to_string(),
        "a.example".to_string(),
    ]);
    assert_eq!(cfg.allowed_hosts, vec!["b.example", "a.example"]);
    assert_eq!(cfg.sse_path, "/sse");
}

#[test]
fn a_cloned_config_is_the_same_and_shares_the_token() {
    let token = CancellationToken::new();
    let cfg = SseServerConfig::default()
        .with_sse_path("/s")
        .with_endpoint_prefix("/p")
        .with_cancellation_token(token.clone());
    let copy = cfg.clone();
    assert_eq!(copy.sse_path, "/s");
    assert_eq!(copy.post_path, "/message");
    assert_eq!(copy.endpoint_prefix.as_deref(), Some("/p"));
    assert_eq!(copy.allowed_hosts, cfg.allowed_hosts);
    assert_eq!(copy.keep_alive, cfg.keep_alive);
    assert_eq!(copy.sse_outbound_buffer, 32);
    assert_eq!(copy.post_inbound_buffer, 32);
    token.cancel();
    assert!(copy.cancellation_token.is_cancelled());
}
