use serde_json::Value;
use sse_server::message::read_message;
use sse_server::post::{post_step, PostAction, PostEvent, PostState};
use sse_server::server::{route_request, set_up_session, NewSession, Route};
use sse_server::sessions::SessionMap;
use sse_server::stream::Outbound;
use sse_server::SseServerConfig;
use tokio::sync::mpsc::error::TrySendError;

/// Posts a body to an address and gives back the status of the reply, or 0 while it is held up.
fn post(config: &SseServerConfig, map: &mut SessionMap, address: &str, body: &str) -> u16 {
    let (path, query) = address.split_once('?').unwrap();
    let sid = match route_request(config, "POST", path, Some(query), true) {
        Route::Post(sid) => sid,
        other => panic!("{:?}", other),
    };
    let entry = match map.find_session(&sid) {
        Ok(entry) => entry,
        Err(reply) => return reply.status,
    };
    let mut event = match read_message(body.as_bytes()) {
        Ok(message) => PostEvent::Read(message),
        Err(reply) => PostEvent::Rejected(reply),
    };
    let mut state = PostState::Reading;
    loop {
        let (next, action) = post_step(state, event);
        state = next;
        match action {
            PostAction::Deliver(message) => {
                event = match entry.inbound.try_send(message) {
                    Ok(()) => PostEvent::Delivered,
                    Err(TrySendError::Closed(_)) => PostEvent::ReceiverGone,
                    Err(TrySendError::Full(_)) => return 0,
                };
            }
            PostAction::Respond(reply) => return reply.status,
            PostAction::TearDown(todo, reply) => {
                if todo.cancel {
                    entry.cancel.cancel();
                }
                if todo.unregister {
                    map.remove(&sid);
                }
                return reply.status;
            }
        }
    }
}

fn ping(id: u32) -> String {
    format!("{{\"jsonrpc\":\"2.0\",\"id\":{},\"method\":\"ping\"}}", id)
}

/// Opens a session and gives back the address that its stream announces.
fn open(config: &SseServerConfig, map: &mut SessionMap, sid: &str) -> (NewSession<()>, String) {
    let mut session = set_up_session(config, sid.to_string(), ());
    map.register(sid.to_string(), session.entry.clone(), false);
    let address = session.stream.open(false).unwrap().data;
    (session, address)
}

fn received(session: &mut NewSession<()>) -> Vec<Value> {
    let mut messages = Vec::new();
    while let Ok(message) = session.inbound.try_recv() {
        messages.push(message);
    }
    messages
}

fn events(session: &mut NewSession<()>) -> Vec<String> {
    let mut data = Vec::new();
    while let Ok(message) = session.messages.try_recv() {
        data.push(session.stream.forward(Outbound::Message(message)).unwrap().data);
    }
    data
}

#[test]
fn accepted_messages_reach_their_service_in_order() {
    let config = SseServerConfig::default();
    let mut map = SessionMap::new();
    let (mut a, to_a) = open(&config, &mut map, "a");
    let (mut b, to_b) = open(&config, &mut map, "b");
    for (address, id) in [(&to_a, 1), (&to_b, 2), (&to_a, 3), (&to_a, 4), (&to_b, 5)] {
        assert_eq!(post(&config, &mut map, address, &ping(id)), 202);
    }
    assert_eq!(post(&config, &mut map, &to_a, "no message"), 415);
    let expect = |ids: &[u32]| -> Vec<Value> {
        ids.iter()
            .map(|id| serde_json::from_str(&ping(*id)).unwrap())
            .collect()
    };
    assert_eq!(received(&mut a), expect(&[1, 3, 4]));
    assert_eq!(received(&mut b), expect(&[2, 5]));
}

#[test]
fn open_sessions_are_kept_apart() {
    let config = SseServerConfig::default();
    let mut map = SessionMap::new();
    let (mut a, to_a) = open(&config, &mut map, "a");
    let (mut b, _) = open(&config, &mut map, "b");
    assert_eq!(to_a, "/message?session_id=a");
    assert_eq!(post(&config, &mut map, &to_a, &ping(7)), 202);
    assert_eq!(received(&mut a).len(), 1);
    assert!(received(&mut b).is_empty());
    let reply: Value = serde_json::from_str(r#"{"id":7,"jsonrpc":"2.0","result":{}}"#).unwrap();
    a.outbound.try_send(reply).unwrap();
    assert_eq!(events(&mut a), vec![r#"{"id":7,"jsonrpc":"2.0","result":{}}"#]);
    assert!(events(&mut b).is_empty());
}

#[test]
fn the_end_of_one_session_leaves_the_other() {
    let config = SseServerConfig::default();
    let mut map = SessionMap::new();
    let (a, to_a) = open(&config, &mut map, "a");
    let (mut b, to_b) = open(&config, &mut map, "b");
    drop(a.inbound);
    // The worker is gone and its entry is still there.
    assert_eq!(post(&config, &mut map, &to_a, &ping(1)), 410);
    assert!(a.entry.cancel.is_cancelled());
    assert_eq!(post(&config, &mut map, &to_a, &ping(2)), 404);
    assert!(!b.entry.cancel.is_cancelled());
    assert!(!config.cancellation_token.is_cancelled());
    assert_eq!(post(&config, &mut map, &to_b, &ping(3)), 202);
    assert_eq!(received(&mut b).len(), 1);
}

#[test]
fn a_full_queue_holds_messages_up_and_loses_none() {
    let config = SseServerConfig::default().with_post_inbound_buffer(3);
    let mut map = SessionMap::new();
    let (mut a, to_a) = open(&config, &mut map, "a");
    for id in 1..4 {
        assert_eq!(post(&config, &mut map, &to_a, &ping(id)), 202);
    }
    for _ in 0..2 {
        assert_eq!(post(&config, &mut map, &to_a, &ping(4)), 0);
    }
    let id_of = |message: Value| message["id"].as_u64().unwrap();
    assert_eq!(id_of(a.inbound.try_recv().unwrap()), 1);
    assert_eq!(post(&config, &mut map, &to_a, &ping(4)), 202);
    assert_eq!(post(&config, &mut map, &to_a, &ping(5)), 0);
    let rest: Vec<u64> = received(&mut a).into_iter().map(id_of).collect();
    assert_eq!(rest, vec![2, 3, 4]);
    for id in 5..8 {
        assert_eq!(post(&config, &mut map, &to_a, &ping(id)), 202);
    }
    a.inbound.close();
    assert_eq!(post(&config, &mut map, &to_a, &ping(8)), 410);
    for id in 9..12 {
        assert_eq!(post(&config, &mut map, &to_a, &ping(id)), 404);
    }
}

#[test]
fn an_id_that_is_given_again_leads_to_the_new_session() {
    let config = SseServerConfig::default();
    let mut map = SessionMap::new();
    let (mut old, address) = open(&config, &mut map, "a");
    map.remove("a");
    assert_eq!(post(&config, &mut map, &address, &ping(1)), 404);
    let (mut new, _) = open(&config, &mut map, "a");
    assert_eq!(post(&config, &mut map, &address, &ping(2)), 202);
    assert!(received(&mut old).is_empty());
    assert_eq!(received(&mut new).len(), 1);
}
