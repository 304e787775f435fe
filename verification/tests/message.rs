use serde_json::Value;
use sse_server::message::{accept_message, members_make_message, read_message, Member};
use sse_server::reply::{failed_read_reply, unreadable_message_reply};

const NO_MESSAGE: &str = "fail to deserialize request body data did not match any variant of \
                          untagged enum JsonRpcMessage";

fn text(s: &str) -> Member {
    Member::Text(s.to_string())
}

#[test]
fn requests_notifications_and_responses_are_messages() {
    for json in [
        r#"{"jsonrpc":"2.0","id":1,"method":"ping"}"#,
        r#"{"jsonrpc":"2.0","id":"a","method":"initialize","params":{"capabilities":{}}}"#,
        r#"{"jsonrpc":"2.0","method":"notifications/initialized"}"#,
        r#"{"jsonrpc":"2.0","id":1,"result":{}}"#,
        r#"{"jsonrpc":"2.0","id":1,"result":null}"#,
        r#"{"jsonrpc":"2.0","id":-3,"error":{"code":-32601,"message":"no such method"}}"#,
        " { \"jsonrpc\" : \"2.0\" , \"id\" : 1 , \"method\" : \"ping\" } ",
    ] {
        let message = read_message(json.as_bytes()).unwrap();
        let value: Value = serde_json::from_str(json).unwrap();
        assert_eq!(message, value);
    }
}

#[test]
fn other_json_is_no_message() {
    for json in [
        "{}",
        "null",
        "17",
        "\"ping\"",
        "[]",
        r#"[{"jsonrpc":"2.0","id":1,"method":"ping"}]"#,
        r#"{"id":1,"method":"ping"}"#,
        r#"{"jsonrpc":"1.0","id":1,"method":"ping"}"#,
        r#"{"jsonrpc":2.0,"id":1,"method":"ping"}"#,
        r#"{"jsonrpc":"2.0","id":1}"#,
        r#"{"jsonrpc":"2.0","id":1,"method":5}"#,
        r#"{"jsonrpc":"2.0","result":{}}"#,
        r#"{"jsonrpc":"2.0","id":1.5,"result":{}}"#,
        r#"{"jsonrpc":"2.0","id":18446744073709551615,"result":{}}"#,
        r#"{"jsonrpc":"2.0","id":true,"result":{}}"#,
        r#"{"jsonrpc":"2.0","id":1,"error":"broken"}"#,
    ] {
        let reply = read_message(json.as_bytes()).unwrap_err();
        assert_eq!(reply.status, 415, "{}", json);
        assert_eq!(reply.body, NO_MESSAGE);
    }
}

#[test]
fn what_is_no_json_is_no_message() {
    for body in [&b""[..], &b"{"[..], &b"ping"[..], &b"{} {}"[..], &b"\xff\xfe"[..]] {
        let reply = read_message(body).unwrap_err();
        let error = serde_json::from_slice::<Value>(body).unwrap_err();
        assert_eq!(reply.status, 415);
        assert_eq!(
            reply.body,
            format!("fail to deserialize request body {}", error)
        );
    }
    assert_eq!(
        read_message(b"{").unwrap_err().body,
        "fail to deserialize request body EOF while parsing an object at line 1 column 1"
    );
}

#[test]
fn a_value_is_taken_as_it_is() {
    let value: Value =
        serde_json::from_str(r#"{"jsonrpc":"2.0","id":9,"method":"m","params":[1,{"x":null}]}"#)
            .unwrap();
    assert_eq!(accept_message(value.clone()).unwrap(), value);
    assert_eq!(accept_message(Value::Null).unwrap_err().body, NO_MESSAGE);
}

#[test]
fn members_decide_what_is_a_message() {
    let no = Member::Absent;
    let two = text("2.0");
    let name = text("ping");
    let id = Member::Number(Some(1));
    assert!(members_make_message(&two, &name, &no, &no, &no));
    assert!(members_make_message(&two, &name, &id, &no, &no));
    assert!(members_make_message(&two, &name, &Member::Null, &no, &no));
    assert!(members_make_message(&two, &no, &id, &Member::Null, &no));
    assert!(members_make_message(&two, &no, &name, &Member::Object, &no));
    assert!(members_make_message(&two, &no, &id, &no, &Member::Object));
    assert!(!members_make_message(&no, &name, &id, &no, &no));
    assert!(!members_make_message(&text("2"), &name, &id, &no, &no));
    assert!(!members_make_message(&two, &no, &id, &no, &no));
    assert!(!members_make_message(&two, &no, &no, &Member::Object, &no));
    assert!(!members_make_message(&two, &no, &Member::Number(None), &Member::Bool, &no));
    assert!(!members_make_message(&two, &no, &id, &no, &Member::Array));
}

#[test]
fn replies_to_bodies_that_are_no_messages_say_why() {
    let reply = unreadable_message_reply("because");
    assert_eq!(reply.status, 415);
    assert_eq!(reply.body, "fail to deserialize request body because");
    let reply = failed_read_reply("cut off");
    assert_eq!(reply.status, 500);
    assert_eq!(reply.body, "Failed to read request body: cut off");
}
