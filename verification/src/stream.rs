//! The events that the client of a session receives: first the address to post its messages to,
//! then each message of the service, until the session ends.
use vstd::prelude::*;

use crate::message::{json_of, json_text, ServerJsonRpcMessage};

verus! {

/// One server-sent event.
#[derive(Debug)]
pub struct SseEvent {
    /// The name of the event.
    pub event: String,
    /// Its data.
    pub data: String,
}

/// What a server-sent event says.
#[verifier::ext_equal]
pub struct EventView {
    /// The characters of the name.
    pub event: Seq<char>,
    /// The characters of the data.
    pub data: Seq<char>,
}

impl View for SseEvent {
    type V = EventView;

    open spec fn view(&self) -> EventView {
        EventView { event: self.event@, data: self.data@ }
    }
}

/// The event that announces the address of the message endpoint.
pub open spec fn endpoint_event(payload: Seq<char>) -> EventView {
    EventView { event: "endpoint"@, data: payload }
}

/// The event that carries a message of the service, given as the JSON text of the message. An
/// empty object stands in for a message that could not be written.
pub open spec fn json_event(json: Option<Seq<char>>) -> EventView {
    EventView {
        event: "message"@,
        data: match json {
            Some(text) => text,
            None => "{}"@,
        },
    }
}

/// The event that carries a message of the service.
pub open spec fn message_event(message: ServerJsonRpcMessage) -> EventView {
    json_event(json_of(message))
}

/// Makes the event that carries a message, from the JSON text of the message.
pub fn event_of_json(json: Option<String>) -> (event: SseEvent)
    ensures
        event@ == json_event(
            match json {
                Some(text) => Some(text@),
                None => None,
            },
        ),
        event.event@ == "message"@,
        json matches Some(text) ==> event.data@ == text@,
        json is None ==> event.data@ == "{}"@,
{
    let data = match json {
        Some(text) => text,
        None => String::from("{}"),
    };
    SseEvent { event: String::from("message"), data }
}

/// How far an event stream has come.
#[derive(Debug, Clone, Copy, PartialEq, Eq, Structural)]
pub enum Phase {
    /// Nothing was sent.
    Start,
    /// The address was sent; messages follow.
    Streaming,
    /// The stream is over.
    Ended,
}

/// What an event stream finds when it looks for its next event.
#[derive(Debug)]
pub enum Outbound {
    /// The session was cancelled.
    Cancelled,
    /// The service sent a message.
    Message(ServerJsonRpcMessage),
    /// The service is gone and all its messages were taken.
    Closed,
}

/// The first step of a stream: the address is sent unless the session was cancelled before.
pub open spec fn open_step(payload: Seq<char>, cancelled: bool) -> (Phase, Option<EventView>) {
    if cancelled {
        (Phase::Ended, None)
    } else {
        (Phase::Streaming, Some(endpoint_event(payload)))
    }
}

/// Each later step: a message is sent on while the stream is not over; anything else ends it.
pub open spec fn forward_step(phase: Phase, input: Outbound) -> (Phase, Option<EventView>) {
    match (phase, input) {
        (Phase::Streaming, Outbound::Message(message)) => (
            Phase::Streaming,
            Some(message_event(message)),
        ),
        _ => (Phase::Ended, None),
    }
}

/// The event stream of one session.
#[derive(Debug)]
pub struct EventStream {
    payload: String,
    phase: Phase,
}

impl EventStream {
    /// The address that the stream announces.
    pub closed spec fn payload(&self) -> Seq<char> {
        self.payload@
    }

    /// How far the stream has come.
    pub closed spec fn spec_phase(&self) -> Phase {
        self.phase
    }

    /// A stream that is to announce `payload`.
    pub fn new(payload: String) -> (stream: Self)
        ensures
            stream.payload() == payload@,
            stream.spec_phase() == Phase::Start,
    {
        EventStream { payload, phase: Phase::Start }
    }

    /// How far the stream has come.
    #[verifier::when_used_as_spec(spec_phase)]
    pub fn phase(&self) -> (phase: Phase)
        ensures
            phase == self.spec_phase(),
    {
        self.phase
    }

    /// Takes the first step; `cancelled` says whether the session was cancelled already. Without
    /// an event the stream is over.
    pub fn open(&mut self, cancelled: bool) -> (event: Option<SseEvent>)
        requires
            old(self).phase() == Phase::Start,
        ensures
            final(self).payload() == old(self).payload(),
            final(self).phase() == open_step(old(self).payload(), cancelled).0,
            match event {
                Some(e) => open_step(old(self).payload(), cancelled).1 == Some(e@),
                None => open_step(old(self).payload(), cancelled).1 is None,
            },
            cancelled ==> event is None && final(self).phase() == Phase::Ended,
            !cancelled ==> {
                &&& event is Some
                &&& event->0.event@ == "endpoint"@
                &&& event->0.data@ == old(self).payload()
                &&& final(self).phase() == Phase::Streaming
            },
    {
        if cancelled {
            self.phase = Phase::Ended;
            None
        } else {
            self.phase = Phase::Streaming;
            Some(SseEvent { event: String::from("endpoint"), data: self.payload.clone() })
        }
    }

    /// Takes a later step. Without an event the stream is over, and it stays so.
    pub fn forward(&mut self, input: Outbound) -> (event: Option<SseEvent>)
        requires
            old(self).phase() != Phase::Start,
        ensures
            final(self).payload() == old(self).payload(),
            final(self).phase() == forward_step(old(self).phase(), input).0,
            match event {
                Some(e) => forward_step(old(self).phase(), input).1 == Some(e@),
                None => forward_step(old(self).phase(), input).1 is None,
            },
            old(self).phase() == Phase::Streaming && input is Message ==> {
                &&& event is Some
                &&& event->0.event@ == "message"@
                &&& json_of(input->Message_0) matches Some(text) ==> event->0.data@ == text
                &&& json_of(input->Message_0) is None ==> event->0.data@ == "{}"@
                &&& final(self).phase() == Phase::Streaming
            },
            old(self).phase() != Phase::Streaming || !(input is Message) ==> event is None
                && final(self).phase() == Phase::Ended,
    {
        match (self.phase, input) {
            (Phase::Streaming, Outbound::Message(message)) => {
                Some(event_of_json(json_text(&message)))
            },
            _ => {
                self.phase = Phase::Ended;
                None
            },
        }
    }
}

/// All events that later steps send, from `phase` on, for what is found at each of them.
pub open spec fn forwarded(phase: Phase, inputs: Seq<Outbound>) -> Seq<EventView>
    decreases inputs.len(),
{
    if inputs.len() == 0 {
        Seq::empty()
    } else {
        let (next, event) = forward_step(phase, inputs[0]);
        let rest = forwarded(next, inputs.drop_first());
        match event {
            Some(e) => seq![e] + rest,
            None => rest,
        }
    }
}

/// All events of a stream: the first step, then one step for each input.
pub open spec fn all_events(
    payload: Seq<char>,
    cancelled: bool,
    inputs: Seq<Outbound>,
) -> Seq<EventView> {
    let (next, event) = open_step(payload, cancelled);
    match event {
        Some(e) => seq![e] + forwarded(next, inputs),
        None => forwarded(next, inputs),
    }
}

/// How many messages come before the first input that is none.
pub open spec fn messages_before_end(inputs: Seq<Outbound>) -> nat
    decreases inputs.len(),
{
    if inputs.len() > 0 && inputs[0] is Message {
        1 + messages_before_end(inputs.drop_first())
    } else {
        0
    }
}

/// A stream that is over sends nothing more, whatever comes.
pub proof fn law_ended_stream_stays_silent(inputs: Seq<Outbound>)
    ensures
        forwarded(Phase::Ended, inputs) == Seq::<EventView>::empty(),
    decreases inputs.len(),
{
    if inputs.len() > 0 {
        law_ended_stream_stays_silent(inputs.drop_first());
    }
}

/// The events that carry a run of messages, each message in one event.
pub open spec fn message_events(messages: Seq<Outbound>) -> Seq<EventView> {
    messages.map_values(|input: Outbound| message_event(input->Message_0))
}

/// An open stream sends every message that comes before the end, each one once and in order, and
/// nothing after it.
pub proof fn law_messages_are_forwarded_in_order(inputs: Seq<Outbound>)
    ensures
        messages_before_end(inputs) <= inputs.len(),
        forall|i: int|
            0 <= i < messages_before_end(inputs) ==> (#[trigger] inputs[i]) is Message,
        messages_before_end(inputs) < inputs.len() ==> !(inputs[messages_before_end(
            inputs,
        ) as int] is Message),
        forwarded(Phase::Streaming, inputs) == message_events(
            inputs.take(messages_before_end(inputs) as int),
        ),
    decreases inputs.len(),
{
    let count = messages_before_end(inputs);
    if inputs.len() == 0 {
        assert(message_events(inputs.take(0)) =~= Seq::empty());
    } else {
        let rest = inputs.drop_first();
        if inputs[0] is Message {
            law_messages_are_forwarded_in_order(rest);
            assert forall|i: int| 0 <= i < count implies (#[trigger] inputs[i]) is Message by {
                if i > 0 {
                    assert(inputs[i] == rest[i - 1]);
                }
            }
            let sent = rest.take(count - 1);
            assert(inputs.take(count as int) =~= seq![inputs[0]] + sent);
            assert(message_events(seq![inputs[0]] + sent) =~= seq![
                message_event(inputs[0]->Message_0),
            ] + message_events(sent));
        } else {
            law_ended_stream_stays_silent(rest);
            assert(message_events(inputs.take(0)) =~= Seq::empty());
        }
    }
}

/// The address is announced first, before any message, and only once, and after it come the
/// messages of the service, each one written as JSON, once and in order, up to the end. A session
/// that was cancelled before the stream was opened announces nothing and sends nothing.
pub proof fn law_address_comes_first_and_once(
    payload: Seq<char>,
    cancelled: bool,
    inputs: Seq<Outbound>,
)
    ensures
        cancelled ==> all_events(payload, cancelled, inputs).len() == 0,
        !cancelled ==> all_events(payload, cancelled, inputs) == seq![endpoint_event(payload)]
            + message_events(inputs.take(messages_before_end(inputs) as int)),
        forall|message: ServerJsonRpcMessage|
            #[trigger] message_event(message).event != endpoint_event(payload).event,
{
    law_ended_stream_stays_silent(inputs);
    law_messages_are_forwarded_in_order(inputs);
    reveal_strlit("message");
    reveal_strlit("endpoint");
    assert("message"@.len() != "endpoint"@.len());
}

/// The event of a message holds the JSON text of the message, whole, whatever the message; an empty
/// object stands in only for one that has no JSON text.
pub proof fn law_message_event_holds_the_whole_text(message: ServerJsonRpcMessage)
    ensures
        message_event(message).event == "message"@,
        json_of(message) matches Some(text) ==> message_event(message).data == text,
        json_of(message) is None ==> message_event(message).data == "{}"@,
{
}

/// The first event of a stream that is opened in time is the address, character for character,
/// whatever the address and whatever follows.
pub proof fn law_first_event_is_the_whole_address(payload: Seq<char>, inputs: Seq<Outbound>)
    ensures
        all_events(payload, false, inputs).len() > 0,
        all_events(payload, false, inputs)[0].event == "endpoint"@,
        all_events(payload, false, inputs)[0].data == payload,
{
}

/// A stream that finds `n` messages before anything else sends them as the `n` events after the
/// address, each with the whole JSON text of its message, and then no more.
pub proof fn law_each_message_is_one_event(payload: Seq<char>, inputs: Seq<Outbound>, n: int)
    requires
        0 <= n <= inputs.len(),
        forall|i: int| 0 <= i < n ==> (#[trigger] inputs[i]) is Message,
        n < inputs.len() ==> !(inputs[n] is Message),
    ensures
        all_events(payload, false, inputs).len() == 1 + n,
        forall|i: int|
            0 <= i < n ==> {
                let sent = #[trigger] all_events(payload, false, inputs)[1 + i];
                let text = json_of(inputs[i]->Message_0);
                &&& sent.event == "message"@
                &&& text is Some ==> sent.data == text->0
                &&& text is None ==> sent.data == "{}"@
            },
{
    law_address_comes_first_and_once(payload, false, inputs);
    law_messages_are_forwarded_in_order(inputs);
    let count = messages_before_end(inputs) as int;
    if count < n {
        assert(inputs[count] is Message);
    } else if n < count {
        assert(inputs[n] is Message);
    }
    assert forall|i: int| 0 <= i < n implies {
        let sent = #[trigger] all_events(payload, false, inputs)[1 + i];
        let text = json_of(inputs[i]->Message_0);
        &&& sent.event == "message"@
        &&& text is Some ==> sent.data == text->0
        &&& text is None ==> sent.data == "{}"@
    } by {
        law_message_event_holds_the_whole_text(inputs[i]->Message_0);
        assert(all_events(payload, false, inputs)[1 + i] == message_events(inputs.take(count))[i]);
    }
}

/// A stream that was cancelled, or whose service is gone, goes to its end; only a message keeps it
/// open.
pub proof fn law_only_messages_keep_a_stream_open(payload: Seq<char>, input: Outbound)
    ensures
        open_step(payload, true) == (Phase::Ended, None::<EventView>),
        open_step(payload, false).0 == Phase::Streaming,
        forward_step(Phase::Streaming, input).0 == Phase::Streaming <==> input is Message,
        forward_step(Phase::Streaming, input).1 is Some <==> input is Message,
        forward_step(Phase::Streaming, input).0 == Phase::Ended <==> !(input is Message),
        forward_step(Phase::Ended, input) == (Phase::Ended, None::<EventView>),
{
}

/// What an event says is its name and its data, all of it.
pub proof fn law_an_event_says_its_name_and_data(event: SseEvent)
    ensures
        event@.event == event.event@,
        event@.data == event.data@,
{
}

} // verus!
