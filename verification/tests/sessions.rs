use serde_json::Value;
use sse_server::lifecycle::{react, SessionEvent};
use sse_server::post::{post_step, PostAction, PostEvent, PostState};
use sse_server::reply::Reply;
use sse_server::sessions::{SessionMap, SseSessionEntry};
use tokio::sync::mpsc;
use tokio_util::sync::CancellationToken;

fn session() -> (SseSessionEntry, mpsc::Receiver<Value>) {
    let (inbound, receiver) = mpsc::channel(1);
    (
        SseSessionEntry {
            inbound,
            cancel: CancellationToken::new(),
        },
        receiver,
    )
}

#[test]
fn a_registered_session_is_found() {
    let mut map = SessionMap::new();
    let (entry, mut receiver) = session();
    let token = entry.cancel.clone();
    assert!(map.register("a".to_string(), entry, false));
    let found = map.find_session("a").ok().unwrap();
    found.inbound.try_send(Value::Bool(true)).unwrap();
    assert_eq!(receiver.try_recv().unwrap(), Value::Bool(true));
    found.cancel.cancel();
    assert!(token.is_cancelled());
}

#[test]
fn an_unknown_session_is_answered_with_404() {
    let map = SessionMap::new();
    let reply = map.find_session("ghost").err().unwrap();
    assert_eq!(reply.status, 404);
    assert_eq!(reply.body, "Session ghost not found");
}

#[test]
fn a_session_that_was_cancelled_before_is_not_registered() {
    let mut map = SessionMap::new();
    let (entry, _receiver) = session();
    assert!(!map.register("a".to_string(), entry, true));
    assert!(map.find_session("a").is_err());
}

#[test]
fn removing_one_session_leaves_the_others() {
    let mut map = SessionMap::new();
    let (a, _ra) = session();
    let (b, _rb) = session();
    map.register("a".to_string(), a, false);
    map.register("b".to_string(), b, false);
    map.remove("a");
    assert!(map.find_session("a").is_err());
    assert!(map.find_session("b").is_ok());
    map.remove("a");
    map.remove("nobody");
    assert!(map.find_session("b").is_ok());
}

#[test]
fn registering_again_replaces_the_session() {
    let mut map = SessionMap::new();
    let (first, _r1) = session();
    let (second, mut r2) = session();
    map.register("a".to_string(), first, false);
    map.register("a".to_string(), second, false);
    let found = map.find_session("a").ok().unwrap();
    found.inbound.try_send(Value::Null).unwrap();
    assert_eq!(r2.try_recv().unwrap(), Value::Null);
}

#[test]
fn each_event_has_its_reaction() {
    let exited = react(SessionEvent::WorkerExited);
    assert!(exited.cancel && exited.unregister && !exited.stop_worker && !exited.end_stream);
    let closed = react(SessionEvent::StreamClosed);
    assert!(closed.cancel && !closed.unregister && !closed.stop_worker && !closed.end_stream);
    let undeliverable = react(SessionEvent::Undeliverable);
    assert!(undeliverable.cancel && undeliverable.unregister);
    assert!(!undeliverable.stop_worker && !undeliverable.end_stream);
    let cancelled = react(SessionEvent::TokenCancelled);
    assert!(!cancelled.cancel && !cancelled.unregister);
    assert!(cancelled.stop_worker && cancelled.end_stream);
}

/// Carries out what a client does that connects and hangs up, with the library's decisions.
fn probe(map: &mut SessionMap, sid: &str) -> bool {
    let (entry, receiver) = session();
    let token = entry.cancel.clone();
    let cancelled = token.is_cancelled();
    map.register(sid.to_string(), entry, cancelled);
    assert!(map.find_session(sid).is_ok());
    let mut worker = Some(receiver);
    if react(SessionEvent::StreamClosed).cancel {
        token.cancel();
    }
    if token.is_cancelled() && react(SessionEvent::TokenCancelled).stop_worker {
        worker = None;
        if react(SessionEvent::WorkerExited).unregister {
            map.remove(sid);
        }
    }
    worker.is_none()
}

#[test]
fn a_client_that_hangs_up_leaves_nothing_behind() {
    let mut map = SessionMap::new();
    for i in 0..10 {
        let sid = format!("probe-{}", i);
        assert!(probe(&mut map, &sid));
        let reply = map.find_session(&sid).err().unwrap();
        assert_eq!(reply.status, 404);
    }
}

#[test]
fn a_worker_that_exits_before_registration_is_not_listed() {
    let mut map = SessionMap::new();
    let (entry, receiver) = session();
    let token = entry.cancel.clone();
    drop(receiver);
    if react(SessionEvent::WorkerExited).cancel {
        token.cancel();
    }
    if react(SessionEvent::WorkerExited).unregister {
        map.remove("a");
    }
    let cancelled = token.is_cancelled();
    assert!(!map.register("a".to_string(), entry, cancelled));
    assert_eq!(map.find_session("a").err().unwrap().status, 404);
}

#[test]
fn a_message_that_is_taken_is_answered_with_202() {
    let message = Value::String("hello".to_string());
    let (state, action) = post_step(PostState::Reading, PostEvent::Read(message.clone()));
    assert_eq!(state, PostState::Delivering);
    match action {
        PostAction::Deliver(handed) => assert_eq!(handed, message),
        other => panic!("{:?}", other),
    }
    let (state, action) = post_step(state, PostEvent::Delivered);
    assert_eq!(state, PostState::Answered);
    match action {
        PostAction::Respond(reply) => {
            assert_eq!(reply.status, 202);
            assert_eq!(reply.body, "");
        }
        other => panic!("{:?}", other),
    }
}

#[test]
fn a_body_that_is_no_message_is_answered_as_it_was_found() {
    let reply = Reply {
        status: 415,
        body: "no JSON".to_string(),
    };
    let (state, action) = post_step(PostState::Reading, PostEvent::Rejected(reply));
    assert_eq!(state, PostState::Answered);
    match action {
        PostAction::Respond(reply) => {
            assert_eq!(reply.status, 415);
            assert_eq!(reply.body, "no JSON");
        }
        other => panic!("{:?}", other),
    }
}

#[test]
fn a_message_for_a_worker_that_is_gone_ends_the_session() {
    let mut map = SessionMap::new();
    let (entry, receiver) = session();
    map.register("a".to_string(), entry, false);
    drop(receiver);
    let found = map.find_session("a").ok().unwrap();
    assert!(found.inbound.try_send(Value::Null).is_err());
    let (state, action) = post_step(PostState::Delivering, PostEvent::ReceiverGone);
    assert_eq!(state, PostState::Answered);
    match action {
        PostAction::TearDown(todo, reply) => {
            assert_eq!(reply.status, 410);
            assert_eq!(reply.body, "Session terminated");
            assert!(todo.cancel && todo.unregister);
            map.remove("a");
        }
        other => panic!("{:?}", other),
    }
    assert_eq!(map.find_session("a").err().unwrap().status, 404);
}
