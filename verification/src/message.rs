//! JSON-RPC messages: reading one out of a request body, and writing one as text.
use vstd::prelude::*;
use vstd::string::*;

use crate::reply::{unreadable_message, unreadable_message_reply, Reply};
use crate::text::same_text;

verus! {

/// `serde_json::Value`: any JSON value. The members of an object are named by [`json_members`].
#[verifier::external_type_specification]
#[verifier::external_body]
pub struct ExValue(serde_json::Value);

/// `serde_json::Error`: why a text is no JSON. Verus sees nothing inside it.
#[verifier::external_type_specification]
#[verifier::external_body]
pub struct ExJsonError(serde_json::Error);

/// A message of a client, as the JSON value that it posted.
pub type ClientJsonRpcMessage = serde_json::Value;

/// A message of a service, as the JSON value that its client is to receive.
pub type ServerJsonRpcMessage = serde_json::Value;

/// What a member of a JSON object is, as far as it matters to a message.
#[derive(Debug)]
pub enum Member {
    /// The object has no such member, or the value is no object.
    Absent,
    /// `null`.
    Null,
    /// `true` or `false`.
    Bool,
    /// A number; with its value where that is an integer of 64 bits.
    Number(Option<i64>),
    /// A string.
    Text(String),
    /// An array.
    Array,
    /// An object.
    Object,
}

/// What a member of a JSON object is, as plain values.
pub enum MemberView {
    /// The object has no such member.
    Absent,
    /// `null`.
    Null,
    /// `true` or `false`.
    Bool,
    /// A number.
    Number(Option<i64>),
    /// A string.
    Text(Seq<char>),
    /// An array.
    Array,
    /// An object.
    Object,
}

impl View for Member {
    type V = MemberView;

    open spec fn view(&self) -> MemberView {
        match *self {
            Member::Absent => MemberView::Absent,
            Member::Null => MemberView::Null,
            Member::Bool => MemberView::Bool,
            Member::Number(n) => MemberView::Number(n),
            Member::Text(text) => MemberView::Text(text@),
            Member::Array => MemberView::Array,
            Member::Object => MemberView::Object,
        }
    }
}

/// The members that a JSON object holds, by their names; none where the value is no object.
pub uninterp spec fn json_members(value: serde_json::Value) -> Map<Seq<char>, MemberView>;

/// The member of this name.
pub open spec fn member_of(members: Map<Seq<char>, MemberView>, name: Seq<char>) -> MemberView {
    if members.contains_key(name) {
        members[name]
    } else {
        MemberView::Absent
    }
}

/// `serde_json::Value::get` gives the member of an object under a name, and nothing where there
/// is none or the value is no object. Of a number, `serde_json::Number::as_i64` gives the value
/// where it is an integer that fits.
#[verifier::external_body]
fn get_member(value: &serde_json::Value, name: &str) -> (member: Member)
    ensures
        member@ == member_of(json_members(*value), name@),
{
    match value.get(name) {
        None => Member::Absent,
        Some(serde_json::Value::Null) => Member::Null,
        Some(serde_json::Value::Bool(_)) => Member::Bool,
        Some(serde_json::Value::Number(n)) => Member::Number(n.as_i64()),
        Some(serde_json::Value::String(s)) => Member::Text(s.clone()),
        Some(serde_json::Value::Array(_)) => Member::Array,
        Some(serde_json::Value::Object(_)) => Member::Object,
    }
}

/// What `serde_json::from_slice` makes of some bytes: the JSON value that they are the text of, or
/// why they are none.
pub uninterp spec fn json_parse(bytes: Seq<u8>) -> Result<serde_json::Value, serde_json::Error>;

/// `serde_json::from_slice` depends on the bytes alone.
#[verifier::external_body]
fn parse_json(bytes: &[u8]) -> (value: Result<serde_json::Value, serde_json::Error>)
    ensures
        value == json_parse(bytes@),
{
    serde_json::from_slice(bytes)
}

/// The text that `serde_json::to_string` writes for a JSON value; `None` where it fails.
pub uninterp spec fn json_of(value: serde_json::Value) -> Option<Seq<char>>;

/// `serde_json::to_string` depends on the value alone.
#[verifier::external_body]
pub(crate) fn json_text(value: &serde_json::Value) -> (text: Option<String>)
    ensures
        match text {
            Some(t) => json_of(*value) == Some(t@),
            None => json_of(*value) is None,
        },
{
    serde_json::to_string(value).ok()
}

/// Whether a member can name a request: a string or an integer.
pub open spec fn is_request_id(id: MemberView) -> bool {
    id is Text || (id matches MemberView::Number(n) && n is Some)
}

/// Whether members make a JSON-RPC message. The version has to be `2.0`. A request or a
/// notification has a method; a response has the id of the request that it answers, and a result
/// or an error object.
pub open spec fn is_message(
    version: MemberView,
    method: MemberView,
    id: MemberView,
    result: MemberView,
    error: MemberView,
) -> bool {
    &&& version == MemberView::Text("2.0"@)
    &&& method is Text || (is_request_id(id) && (!(result is Absent) || error is Object))
}

/// Whether the members of a JSON value make it a JSON-RPC message.
pub open spec fn is_client_message(members: Map<Seq<char>, MemberView>) -> bool {
    is_message(
        member_of(members, "jsonrpc"@),
        member_of(members, "method"@),
        member_of(members, "id"@),
        member_of(members, "result"@),
        member_of(members, "error"@),
    )
}

/// What is wrong with a JSON value that is no JSON-RPC message.
pub open spec fn no_message() -> Seq<char> {
    "data did not match any variant of untagged enum JsonRpcMessage"@
}

/// Decides whether members make a JSON-RPC message.
pub fn members_make_message(
    version: &Member,
    method: &Member,
    id: &Member,
    result: &Member,
    error: &Member,
) -> (yes: bool)
    ensures
        yes == is_message(version@, method@, id@, result@, error@),
        yes <==> {
            &&& *version matches Member::Text(text)
            &&& text@ == "2.0"@
            &&& {
                ||| *method is Text
                ||| (*id is Text || (*id matches Member::Number(n) && n is Some)) && !(*result is Absent)
                ||| (*id is Text || (*id matches Member::Number(n) && n is Some)) && *error is Object
            }
        },
{
    let version_fits = match version {
        Member::Text(text) => same_text(text.as_str(), "2.0"),
        _ => false,
    };
    let has_method = match method {
        Member::Text(_) => true,
        _ => false,
    };
    let has_id = match id {
        Member::Text(_) => true,
        Member::Number(Some(_)) => true,
        _ => false,
    };
    let has_result = match result {
        Member::Absent => false,
        _ => true,
    };
    let has_error = match error {
        Member::Object => true,
        _ => false,
    };
    version_fits && (has_method || (has_id && (has_result || has_error)))
}

/// Takes a JSON value for a message, or gives the reply that it is none.
pub fn accept_message(value: serde_json::Value) -> (message: Result<ClientJsonRpcMessage, Reply>)
    ensures
        match message {
            Ok(m) => is_client_message(json_members(value)) && m == value,
            Err(reply) => !is_client_message(json_members(value)) && reply@ == unreadable_message(
                no_message(),
            ),
        },
        message matches Err(reply) ==> reply.status == 415 && reply.body@
            == "fail to deserialize request body "@
            + "data did not match any variant of untagged enum JsonRpcMessage"@,
{
    let version = get_member(&value, "jsonrpc");
    let method = get_member(&value, "method");
    let id = get_member(&value, "id");
    let result = get_member(&value, "result");
    let error = get_member(&value, "error");
    if members_make_message(&version, &method, &id, &result, &error) {
        Ok(value)
    } else {
        Err(
            unreadable_message_reply(
                "data did not match any variant of untagged enum JsonRpcMessage",
            ),
        )
    }
}

/// Reads a request body as one JSON-RPC message, or gives the reply that it is none.
pub fn read_message(body: &[u8]) -> (message: Result<ClientJsonRpcMessage, Reply>)
    ensures
        json_parse(body@) matches Ok(value) ==> match message {
            Ok(m) => is_client_message(json_members(value)) && m == value,
            Err(reply) => !is_client_message(json_members(value)) && reply@ == unreadable_message(
                no_message(),
            ),
        },
        json_parse(body@) matches Err(error) ==> message is Err && exists|text: String|
            #[trigger] to_string_from_display_ensures(&error, text) && message->Err_0@
                == unreadable_message(text@),
        message matches Err(reply) ==> reply.status == 415,
{
    match parse_json(body) {
        Ok(value) => accept_message(value),
        Err(error) => {
            let text = error.to_string();
            let reply = unreadable_message_reply(text.as_str());
            assert(to_string_from_display_ensures(&error, text));
            Err(reply)
        },
    }
}

/// A member is the one that stands under its name, and absent where none does.
pub proof fn law_a_member_stands_under_its_name(
    members: Map<Seq<char>, MemberView>,
    name: Seq<char>,
)
    ensures
        members.contains_key(name) ==> member_of(members, name) == members[name],
        !members.contains_key(name) ==> member_of(members, name) == MemberView::Absent,
{
}

/// A value of version 2.0 with a method is a message, whatever the text of the method and whatever
/// else it holds: a request where it has an id, a notification where it has none.
pub proof fn law_a_method_makes_a_message(
    members: Map<Seq<char>, MemberView>,
    name: Seq<char>,
)
    requires
        members.contains_key("jsonrpc"@),
        members["jsonrpc"@] == MemberView::Text("2.0"@),
        members.contains_key("method"@),
        members["method"@] == MemberView::Text(name),
    ensures
        is_client_message(members),
{
}

/// A value of version 2.0 that names a request, by any text or any integer of 64 bits, and holds a
/// result of any kind, or an error object, is a message: the response to that request.
pub proof fn law_a_response_is_a_message(
    members: Map<Seq<char>, MemberView>,
    text: Seq<char>,
    number: i64,
)
    requires
        members.contains_key("jsonrpc"@),
        members["jsonrpc"@] == MemberView::Text("2.0"@),
        members.contains_key("id"@),
        members["id"@] == MemberView::Text(text) || members["id"@] == MemberView::Number(
            Some(number),
        ),
        (members.contains_key("result"@) && members["result"@] != MemberView::Absent) || (
        members.contains_key("error"@) && members["error"@] == MemberView::Object),
    ensures
        is_client_message(members),
{
}

/// Nothing else is a message: every message is of version 2.0, and has a method or is a response.
pub proof fn law_nothing_else_is_a_message(members: Map<Seq<char>, MemberView>)
    requires
        is_client_message(members),
    ensures
        members.contains_key("jsonrpc"@),
        members["jsonrpc"@] == MemberView::Text("2.0"@),
        (members.contains_key("method"@) && members["method"@] is Text) || {
            &&& members.contains_key("id"@)
            &&& members["id"@] is Text || (members["id"@] is Number && members["id"@]->Number_0
                is Some)
            &&& (members.contains_key("result"@) && !(members["result"@] is Absent)) || (
            members.contains_key("error"@) && members["error"@] is Object)
        },
{
}

/// What a client that posts something else is told.
pub proof fn law_what_is_no_message_is_told_so()
    ensures
        no_message() == "data did not match any variant of untagged enum JsonRpcMessage"@,
{
}

/// A member of any kind is told for what it is.
pub proof fn law_a_member_is_told_by_its_kind(member: Member)
    ensures
        member@ is Absent <==> member is Absent,
        member@ is Null <==> member is Null,
        member@ is Bool <==> member is Bool,
        member@ is Number <==> member is Number,
        member is Number ==> member@->Number_0 == member->Number_0,
        member@ is Text <==> member is Text,
        member is Text ==> member@->Text_0 == member->Text_0@,
        member@ is Array <==> member is Array,
        member@ is Object <==> member is Object,
{
}

} // verus!
