//! Replies to HTTP requests, as plain values.
use vstd::prelude::*;
use vstd::string::*;

verus! {

/// A reply with a text for its body and no headers of its own.
#[derive(Debug)]
pub struct Reply {
    /// The HTTP status code.
    pub status: u16,
    /// The body.
    pub body: String,
}

/// What a reply says.
#[verifier::ext_equal]
pub struct ReplyView {
    /// The HTTP status code.
    pub status: u16,
    /// The characters of the body.
    pub body: Seq<char>,
}

impl View for Reply {
    type V = ReplyView;

    open spec fn view(&self) -> ReplyView {
        ReplyView { status: self.status, body: self.body@ }
    }
}

/// 202 Accepted, with an empty body: the message was handed to the session's service.
pub open spec fn accepted() -> ReplyView {
    ReplyView { status: 202, body: Seq::empty() }
}

/// 400 Bad Request: the message names no session.
pub open spec fn missing_session_id() -> ReplyView {
    ReplyView { status: 400, body: "missing session_id"@ }
}

/// 403 Forbidden: the `Host` header is not accepted.
pub open spec fn forbidden_host() -> ReplyView {
    ReplyView { status: 403, body: "Forbidden Host"@ }
}

/// 404 Not Found: nothing is served under this method and path.
pub open spec fn not_found() -> ReplyView {
    ReplyView { status: 404, body: "Not Found"@ }
}

/// 404 Not Found: there is no session of this name.
pub open spec fn unknown_session(sid: Seq<char>) -> ReplyView {
    ReplyView { status: 404, body: "Session "@ + sid + " not found"@ }
}

/// 410 Gone: the service of the session has exited.
pub open spec fn session_terminated() -> ReplyView {
    ReplyView { status: 410, body: "Session terminated"@ }
}

/// 415 Unsupported Media Type: the body is no message; `error` says why.
pub open spec fn unreadable_message(error: Seq<char>) -> ReplyView {
    ReplyView { status: 415, body: "fail to deserialize request body "@ + error }
}

/// 500 Internal Server Error: the body could not be received; `error` says why.
pub open spec fn failed_read(error: Seq<char>) -> ReplyView {
    ReplyView { status: 500, body: "Failed to read request body: "@ + error }
}

/// 500 Internal Server Error: no service could be made for a new session.
pub open spec fn service_failed(error: Seq<char>) -> ReplyView {
    ReplyView { status: 500, body: "Encounter an error when create service: "@ + error }
}

/// The reply to a message that was handed over.
pub fn accepted_reply() -> (reply: Reply)
    ensures
        reply@ == accepted(),
        reply.status == 202,
        reply.body@.len() == 0,
{
    Reply { status: 202, body: String::new() }
}

/// The reply to a message that names no session.
pub fn missing_session_id_reply() -> (reply: Reply)
    ensures
        reply@ == missing_session_id(),
        reply.status == 400,
        reply.body@ == "missing session_id"@,
{
    Reply { status: 400, body: String::from("missing session_id") }
}

/// The reply to a request whose `Host` header is not accepted.
pub fn forbidden_host_reply() -> (reply: Reply)
    ensures
        reply@ == forbidden_host(),
        reply.status == 403,
        reply.body@ == "Forbidden Host"@,
{
    Reply { status: 403, body: String::from("Forbidden Host") }
}

/// The reply to a request for something that is not served.
pub fn not_found_reply() -> (reply: Reply)
    ensures
        reply@ == not_found(),
        reply.status == 404,
        reply.body@ == "Not Found"@,
{
    Reply { status: 404, body: String::from("Not Found") }
}

/// The reply to a message for a session that does not exist.
pub fn unknown_session_reply(sid: &str) -> (reply: Reply)
    ensures
        reply@ == unknown_session(sid@),
        reply.status == 404,
        reply.body@ == "Session "@ + sid@ + " not found"@,
{
    let mut body = String::from("Session ");
    body.append(sid);
    body.append(" not found");
    Reply { status: 404, body }
}

/// The reply to a message that the session's service can no longer receive.
pub fn session_terminated_reply() -> (reply: Reply)
    ensures
        reply@ == session_terminated(),
        reply.status == 410,
        reply.body@ == "Session terminated"@,
{
    Reply { status: 410, body: String::from("Session terminated") }
}

/// The reply to a body that is no message; `error` says why.
pub fn unreadable_message_reply(error: &str) -> (reply: Reply)
    ensures
        reply@ == unreadable_message(error@),
        reply.status == 415,
        reply.body@ == "fail to deserialize request body "@ + error@,
{
    let mut body = String::from("fail to deserialize request body ");
    body.append(error);
    Reply { status: 415, body }
}

/// The reply to a body that could not be received; `error` says why.
pub fn failed_read_reply(error: &str) -> (reply: Reply)
    ensures
        reply@ == failed_read(error@),
        reply.status == 500,
        reply.body@ == "Failed to read request body: "@ + error@,
{
    let mut body = String::from("Failed to read request body: ");
    body.append(error);
    Reply { status: 500, body }
}

/// The reply to a request for a stream where no service could be made; `error` says why.
pub fn service_failed_reply(error: &str) -> (reply: Reply)
    ensures
        reply@ == service_failed(error@),
        reply.status == 500,
        reply.body@ == "Encounter an error when create service: "@ + error@,
{
    let mut body = String::from("Encounter an error when create service: ");
    body.append(error);
    Reply { status: 500, body }
}

/// Status and headers of a reply whose body is an event stream.
#[derive(Debug)]
pub struct StreamHead {
    /// The HTTP status code.
    pub status: u16,
    /// Names and values of the headers.
    pub headers: Vec<(String, String)>,
}

/// The headers of an event stream. The last one keeps proxies from holding the first event back
/// until more bytes have come together.
pub open spec fn stream_headers() -> Seq<(Seq<char>, Seq<char>)> {
    seq![
        ("content-type"@, "text/event-stream; charset=utf-8"@),
        ("cache-control"@, "no-store"@),
        ("x-accel-buffering"@, "no"@),
    ]
}

impl StreamHead {
    /// The characters of the headers.
    pub open spec fn header_texts(self) -> Seq<(Seq<char>, Seq<char>)> {
        self.headers@.map_values(|header: (String, String)| (header.0@, header.1@))
    }
}

/// Status and headers of the reply that opens an event stream.
pub fn stream_head() -> (head: StreamHead)
    ensures
        head.status == 200,
        head.header_texts() == stream_headers(),
        head.headers@.len() == 3,
        head.headers@[0].0@ == "content-type"@,
        head.headers@[0].1@ == "text/event-stream; charset=utf-8"@,
        head.headers@[1].0@ == "cache-control"@,
        head.headers@[1].1@ == "no-store"@,
        head.headers@[2].0@ == "x-accel-buffering"@,
        head.headers@[2].1@ == "no"@,
{
    let head = StreamHead {
        status: 200,
        headers: vec![
            (String::from("content-type"), String::from("text/event-stream; charset=utf-8")),
            (String::from("cache-control"), String::from("no-store")),
            (String::from("x-accel-buffering"), String::from("no")),
        ],
    };
    assert(head.header_texts() =~= stream_headers());
    head
}

/// Every id and every error text gets the status that its case has, whatever the text, and the
/// text stands in the body whole.
pub proof fn law_every_reply_has_the_status_of_its_case(sid: Seq<char>, error: Seq<char>)
    ensures
        accepted().status == 202 && accepted().body.len() == 0,
        missing_session_id().status == 400 && missing_session_id().body == "missing session_id"@,
        forbidden_host().status == 403 && forbidden_host().body == "Forbidden Host"@,
        not_found().status == 404 && not_found().body == "Not Found"@,
        unknown_session(sid).status == 404,
        unknown_session(sid).body == "Session "@ + sid + " not found"@,
        session_terminated().status == 410 && session_terminated().body == "Session terminated"@,
        unreadable_message(error).status == 415,
        unreadable_message(error).body == "fail to deserialize request body "@ + error,
        failed_read(error).status == 500,
        failed_read(error).body == "Failed to read request body: "@ + error,
        service_failed(error).status == 500,
        service_failed(error).body == "Encounter an error when create service: "@ + error,
{
}

/// An event stream is announced as one, is not stored, and is not held back by proxies.
pub proof fn law_stream_headers_are_three()
    ensures
        stream_headers().len() == 3,
        stream_headers()[0] == ("content-type"@, "text/event-stream; charset=utf-8"@),
        stream_headers()[1] == ("cache-control"@, "no-store"@),
        stream_headers()[2] == ("x-accel-buffering"@, "no"@),
{
}

/// What a reply says is its status and its body, all of it.
pub proof fn law_a_reply_says_its_status_and_body(reply: Reply)
    ensures
        reply@.status == reply.status,
        reply@.body == reply.body@,
{
}

/// The texts of the headers are those of each of them, in order.
pub proof fn law_header_texts_are_those_of_each_header(head: StreamHead)
    ensures
        head.header_texts().len() == head.headers@.len(),
        forall|i: int|
            0 <= i < head.headers@.len() ==> #[trigger] head.header_texts()[i] == (
                head.headers@[i].0@,
                head.headers@[i].1@,
            ),
{
}

} // verus!
