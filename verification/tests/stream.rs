use serde_json::Value;
use sse_server::stream::{event_of_json, EventStream, Outbound, Phase};

fn value(json: &str) -> Value {
    serde_json::from_str(json).unwrap()
}

#[test]
fn the_address_comes_first_then_the_messages() {
    let mut stream = EventStream::new("/message?session_id=abc".to_string());
    assert_eq!(stream.phase(), Phase::Start);
    let first = stream.open(false).unwrap();
    assert_eq!(first.event, "endpoint");
    assert_eq!(first.data, "/message?session_id=abc");
    assert_eq!(stream.phase(), Phase::Streaming);
    for json in [
        "{\"id\":1,\"jsonrpc\":\"2.0\",\"result\":{}}",
        "{\"id\":2,\"jsonrpc\":\"2.0\",\"result\":[null,true,\"a\\nb\"]}",
    ] {
        let event = stream.forward(Outbound::Message(value(json))).unwrap();
        assert_eq!(event.event, "message");
        assert_eq!(event.data, json);
    }
    assert_eq!(stream.phase(), Phase::Streaming);
}

#[test]
fn an_empty_object_stands_in_for_a_message_that_cannot_be_written() {
    let event = event_of_json(None);
    assert_eq!(event.event, "message");
    assert_eq!(event.data, "{}");
}

#[test]
fn a_cancelled_session_announces_nothing() {
    let mut stream = EventStream::new("/m".to_string());
    assert!(stream.open(true).is_none());
    assert_eq!(stream.phase(), Phase::Ended);
    assert!(stream.forward(Outbound::Message(value("{}"))).is_none());
}

#[test]
fn a_stream_that_is_over_stays_silent() {
    for end in [Outbound::Cancelled, Outbound::Closed] {
        let mut stream = EventStream::new("/m".to_string());
        assert!(stream.open(false).is_some());
        assert!(stream.forward(end).is_none());
        assert_eq!(stream.phase(), Phase::Ended);
        assert!(stream.forward(Outbound::Message(value("{}"))).is_none());
        assert_eq!(stream.phase(), Phase::Ended);
    }
}

#[test]
fn the_text_of_a_message_is_taken_over() {
    let event = event_of_json(Some("{\"a\":1}".to_string()));
    assert_eq!(event.event, "message");
    assert_eq!(event.data, "{\"a\":1}");
}
