//! The exchange in which a client posts a message to its session.
//!
//! The session is looked up, the body is read, the message is handed to the session's worker, and
//! the client gets its reply. Reading and handing over have to be waited for, so the exchange is
//! a machine that says what to do next and is told how it went.
use vstd::prelude::*;

use crate::lifecycle::{advance, after_end, after_removal, has_own_id, in_order, is_listed};
use crate::lifecycle::{law_a_removed_session_stays_out, law_an_ended_session_is_gone, react};
use crate::lifecycle::{reaction, Reaction, SessionEvent, Step, World};
use crate::message::ClientJsonRpcMessage;
use crate::reply::{accepted, accepted_reply, session_terminated, session_terminated_reply};
use crate::reply::{unknown_session, Reply, ReplyView};
use crate::sessions::SseSessionEntry;

verus! {

/// How far an exchange has come. The session was found before.
#[derive(Debug, Clone, Copy, PartialEq, Eq, Structural)]
pub enum PostState {
    /// The body is being read.
    Reading,
    /// The message is being handed to the worker.
    Delivering,
    /// The reply was given.
    Answered,
}

/// How the last thing to do went.
#[derive(Debug)]
pub enum PostEvent {
    /// The body could not be read as a message; this is the reply to that.
    Rejected(Reply),
    /// The body was read and is this message.
    Read(ClientJsonRpcMessage),
    /// The worker took the message.
    Delivered,
    /// The worker is gone.
    ReceiverGone,
}

/// What to do next.
#[derive(Debug)]
pub enum PostAction {
    /// Hand this message to the worker.
    Deliver(ClientJsonRpcMessage),
    /// Reply.
    Respond(Reply),
    /// Do what the end of the session asks for, and reply.
    TearDown(Reaction, Reply),
}

/// How the last thing to do went, as plain values.
pub enum PostEventView {
    /// The body could not be read as a message.
    Rejected(ReplyView),
    /// The body was read and is this message.
    Read(ClientJsonRpcMessage),
    /// The worker took the message.
    Delivered,
    /// The worker is gone.
    ReceiverGone,
}

/// What to do next, as plain values.
pub enum PostActionView {
    /// Hand this message to the worker.
    Deliver(ClientJsonRpcMessage),
    /// Reply.
    Respond(ReplyView),
    /// End the session and reply.
    TearDown(Reaction, ReplyView),
}

impl View for PostEvent {
    type V = PostEventView;

    open spec fn view(&self) -> PostEventView {
        match *self {
            PostEvent::Rejected(reply) => PostEventView::Rejected(reply@),
            PostEvent::Read(message) => PostEventView::Read(message),
            PostEvent::Delivered => PostEventView::Delivered,
            PostEvent::ReceiverGone => PostEventView::ReceiverGone,
        }
    }
}

impl View for PostAction {
    type V = PostActionView;

    open spec fn view(&self) -> PostActionView {
        match *self {
            PostAction::Deliver(message) => PostActionView::Deliver(message),
            PostAction::Respond(reply) => PostActionView::Respond(reply@),
            PostAction::TearDown(todo, reply) => PostActionView::TearDown(todo, reply@),
        }
    }
}

/// Whether an event can come in a state.
pub open spec fn fits(state: PostState, event: PostEventView) -> bool {
    match state {
        PostState::Reading => event is Rejected || event is Read,
        PostState::Delivering => event is Delivered || event is ReceiverGone,
        PostState::Answered => false,
    }
}

/// What an exchange does on an event that fits its state.
pub open spec fn post_next(event: PostEventView) -> (PostState, PostActionView) {
    match event {
        PostEventView::Rejected(reply) => (PostState::Answered, PostActionView::Respond(reply)),
        PostEventView::Read(message) => (
            PostState::Delivering,
            PostActionView::Deliver(message),
        ),
        PostEventView::Delivered => (PostState::Answered, PostActionView::Respond(accepted())),
        PostEventView::ReceiverGone => (
            PostState::Answered,
            PostActionView::TearDown(reaction(SessionEvent::Undeliverable), session_terminated()),
        ),
    }
}

/// Takes an exchange one step further.
pub fn post_step(state: PostState, event: PostEvent) -> (next: (PostState, PostAction))
    requires
        fits(state, event@),
    ensures
        (next.0, next.1@) == post_next(event@),
        event matches PostEvent::Rejected(reply) ==> next.0 == PostState::Answered && next.1
            == PostAction::Respond(reply),
        event matches PostEvent::Read(message) ==> next.0 == PostState::Delivering && next.1
            == PostAction::Deliver(message),
        event is Delivered ==> {
            &&& next.0 == PostState::Answered
            &&& next.1 matches PostAction::Respond(reply)
            &&& reply.status == 202
            &&& reply.body@.len() == 0
        },
        event is ReceiverGone ==> {
            &&& next.0 == PostState::Answered
            &&& next.1 matches PostAction::TearDown(todo, reply)
            &&& todo.cancel
            &&& todo.unregister
            &&& reply.status == 410
            &&& reply.body@ == "Session terminated"@
        },
{
    match event {
        PostEvent::Rejected(reply) => (PostState::Answered, PostAction::Respond(reply)),
        PostEvent::Read(message) => (PostState::Delivering, PostAction::Deliver(message)),
        PostEvent::Delivered => (PostState::Answered, PostAction::Respond(accepted_reply())),
        PostEvent::ReceiverGone => (
            PostState::Answered,
            PostAction::TearDown(
                react(SessionEvent::Undeliverable),
                session_terminated_reply(),
            ),
        ),
    }
}

/// How a whole exchange ends.
#[verifier::ext_equal]
pub struct PostOutcome {
    /// The reply.
    pub reply: ReplyView,
    /// Whether the session's token is cancelled for it.
    pub cancels: bool,
    /// The table of sessions afterwards.
    pub sessions: Map<Seq<char>, SseSessionEntry>,
}

/// The outcome that an action stands for, where it ends the exchange.
pub open spec fn outcome_of(
    sessions: Map<Seq<char>, SseSessionEntry>,
    sid: Seq<char>,
    action: PostActionView,
) -> Option<PostOutcome> {
    match action {
        PostActionView::Deliver(_) => None,
        PostActionView::Respond(reply) => Some(PostOutcome { reply, cancels: false, sessions }),
        PostActionView::TearDown(todo, reply) => Some(
            PostOutcome {
                reply,
                cancels: todo.cancel,
                sessions: if todo.unregister {
                    sessions.remove(sid)
                } else {
                    sessions
                },
            },
        ),
    }
}

/// The event that a body gives: the message that was read out of it, or the reply that it is none.
pub open spec fn body_event(body: Result<ClientJsonRpcMessage, ReplyView>) -> PostEventView {
    match body {
        Ok(message) => PostEventView::Read(message),
        Err(reply) => PostEventView::Rejected(reply),
    }
}

/// A whole exchange, step by step: `body` is what was read, and `delivered` says whether the
/// worker took the message or is gone; as long as it does neither, there is no outcome.
pub open spec fn exchange(
    sessions: Map<Seq<char>, SseSessionEntry>,
    sid: Seq<char>,
    body: Result<ClientJsonRpcMessage, ReplyView>,
    delivered: Option<bool>,
) -> Option<PostOutcome> {
    if !sessions.contains_key(sid) {
        Some(PostOutcome { reply: unknown_session(sid), cancels: false, sessions })
    } else {
        match (outcome_of(sessions, sid, post_next(body_event(body)).1), delivered) {
            (Some(outcome), _) => Some(outcome),
            (None, Some(true)) => outcome_of(
                sessions,
                sid,
                post_next(PostEventView::Delivered).1,
            ),
            (None, Some(false)) => outcome_of(
                sessions,
                sid,
                post_next(PostEventView::ReceiverGone).1,
            ),
            (None, None) => None,
        }
    }
}

/// Each message gets one of four replies. For an unknown session it is 404; for a body that is no
/// message, the reply that says so; 202 where the worker took the message; and 410 where the
/// worker is gone, with the session cancelled and taken out of the table. In the first three
/// cases nothing changes. A message that the worker has neither taken nor refused is not answered
/// yet.
pub proof fn law_every_message_is_answered(
    sessions: Map<Seq<char>, SseSessionEntry>,
    sid: Seq<char>,
    body: Result<ClientJsonRpcMessage, ReplyView>,
    delivered: Option<bool>,
)
    ensures
        exchange(sessions, sid, body, delivered) == if !sessions.contains_key(sid) {
            Some(PostOutcome { reply: unknown_session(sid), cancels: false, sessions })
        } else if body is Err {
            Some(PostOutcome { reply: body->Err_0, cancels: false, sessions })
        } else {
            match delivered {
                Some(true) => Some(PostOutcome { reply: accepted(), cancels: false, sessions }),
                Some(false) => Some(
                    PostOutcome {
                        reply: session_terminated(),
                        cancels: true,
                        sessions: sessions.remove(sid),
                    },
                ),
                None => None,
            }
        },
{
}

/// What an exchange that ends with 410 does to the table is what the lifecycle of the session has
/// for a message that cannot be delivered: the event, and the removal that it asks for.
pub proof fn law_undeliverable_message_removes_its_session(
    world: World,
    k: int,
    message: ClientJsonRpcMessage,
)
    requires
        in_order(world),
        0 <= k < world.lives.len(),
        is_listed(world, k),
    ensures
        ({
            let outcome = exchange(world.sessions, world.lives[k].sid, Ok(message), Some(false))->0;
            let next = advance(
                advance(world, Step::Event(k, SessionEvent::Undeliverable)),
                Step::Remove(k),
            );
            &&& outcome.reply == session_terminated()
            &&& outcome.sessions == next.sessions
            &&& outcome.cancels
            &&& next.lives[k].cancelled
        }),
{
}

/// After a message was answered with 410, or the worker of a session has exited, and the session
/// was taken out of the table for it, every later message to its id is answered with 404, whatever
/// its body, and changes nothing; none is ever handed to that session again. Where the id is not
/// the session's own, a message may instead find another session that was given the same id.
pub proof fn law_terminated_session_is_unknown(
    world: World,
    k: int,
    event: SessionEvent,
    meanwhile: Seq<Step>,
    later: Seq<Step>,
    body: Result<ClientJsonRpcMessage, ReplyView>,
    delivered: Option<bool>,
)
    requires
        in_order(world),
        0 <= k < world.lives.len(),
        reaction(event).unregister,
    ensures
        ({
            let end = after_removal(world, k, event, meanwhile, later);
            let sid = world.lives[k].sid;
            let unknown = PostOutcome {
                reply: unknown_session(sid),
                cancels: false,
                sessions: end.sessions,
            };
            &&& !is_listed(end, k)
            &&& exchange(end.sessions, sid, body, delivered) == Some(unknown) || (
            end.owners.contains_key(sid) && end.owners[sid] != k)
            &&& has_own_id(world, k, meanwhile) && has_own_id(world, k, later) ==> exchange(
                end.sessions,
                sid,
                body,
                delivered,
            ) == Some(unknown)
        }),
{
    law_a_removed_session_stays_out(world, k, event, meanwhile, later);
}

/// Once the server has dealt with the end of a session, be it that its client hung up, every
/// message to its id is answered with 404; none is handed to that session. Where the id is not
/// the session's own, a message may instead find another session that was given the same id.
pub proof fn law_ended_session_is_unknown(
    world: World,
    k: int,
    event: SessionEvent,
    meanwhile: Seq<Step>,
    later: Seq<Step>,
    body: Result<ClientJsonRpcMessage, ReplyView>,
    delivered: Option<bool>,
)
    requires
        in_order(world),
        0 <= k < world.lives.len(),
    ensures
        ({
            let end = after_end(world, k, event, meanwhile, later);
            let sid = world.lives[k].sid;
            let unknown = PostOutcome {
                reply: unknown_session(sid),
                cancels: false,
                sessions: end.sessions,
            };
            &&& !is_listed(end, k)
            &&& exchange(end.sessions, sid, body, delivered) == Some(unknown) || (
            end.owners.contains_key(sid) && end.owners[sid] != k)
            &&& has_own_id(world, k, meanwhile) && has_own_id(world, k, later) ==> exchange(
                end.sessions,
                sid,
                body,
                delivered,
            ) == Some(unknown)
        }),
{
    law_an_ended_session_is_gone(world, k, event, meanwhile, later);
}

/// A message for one session leaves every other session as it was.
pub proof fn law_message_touches_its_own_session(
    sessions: Map<Seq<char>, SseSessionEntry>,
    sid: Seq<char>,
    body: Result<ClientJsonRpcMessage, ReplyView>,
    delivered: Option<bool>,
    other: Seq<char>,
)
    requires
        other != sid,
    ensures
        exchange(sessions, sid, body, delivered) is Some ==> ({
            let end = exchange(sessions, sid, body, delivered)->0.sessions;
            &&& end.contains_key(other) == sessions.contains_key(other)
            &&& sessions.contains_key(other) ==> end[other] == sessions[other]
        }),
{
}

/// An exchange reads first, then delivers, and is over once it is answered.
pub proof fn law_an_exchange_reads_then_delivers(event: PostEventView)
    ensures
        fits(PostState::Reading, event) <==> event is Rejected || event is Read,
        fits(PostState::Delivering, event) <==> event is Delivered || event is ReceiverGone,
        !fits(PostState::Answered, event),
        event is Read ==> post_next(event).0 == PostState::Delivering && post_next(event).1
            == PostActionView::Deliver(event->Read_0),
        !(event is Read) ==> post_next(event).0 == PostState::Answered && !(post_next(event).1
            is Deliver),
        event is Rejected ==> post_next(event).1 == PostActionView::Respond(event->Rejected_0),
{
}

/// The status of a reply tells what became of a message, whatever its id and its text. Without a
/// session of the id it is 404, and nothing changes; a body that is no message gets the reply that
/// says so; a message that was taken gets 202, and one whose worker is gone 410. The other way
/// round, 202 is given only for a message that was handed to the worker of its session; this asks
/// that the reply to a body that is no message is another.
pub proof fn law_the_status_tells_what_became_of_a_message(
    sessions: Map<Seq<char>, SseSessionEntry>,
    sid: Seq<char>,
    body: Result<ClientJsonRpcMessage, ReplyView>,
    delivered: Option<bool>,
)
    ensures
        ({
            let outcome = exchange(sessions, sid, body, delivered);
            let known = sessions.contains_key(sid);
            &&& !known ==> {
                &&& outcome is Some
                &&& outcome->0.reply.status == 404
                &&& outcome->0.reply.body == "Session "@ + sid + " not found"@
                &&& outcome->0.sessions == sessions
                &&& !outcome->0.cancels
            }
            &&& known && body is Err ==> {
                &&& outcome is Some
                &&& outcome->0.reply == body->Err_0
                &&& outcome->0.sessions == sessions
                &&& !outcome->0.cancels
            }
            &&& known && body is Ok && delivered == Some(true) ==> {
                &&& outcome is Some
                &&& outcome->0.reply.status == 202
                &&& outcome->0.reply.body.len() == 0
                &&& outcome->0.sessions == sessions
                &&& !outcome->0.cancels
            }
            &&& known && body is Ok && delivered == Some(false) ==> {
                &&& outcome is Some
                &&& outcome->0.reply.status == 410
                &&& outcome->0.reply.body == "Session terminated"@
                &&& outcome->0.sessions == sessions.remove(sid)
                &&& outcome->0.cancels
            }
            &&& known && body is Ok && delivered is None ==> outcome is None
            &&& outcome is Some && outcome->0.reply.status == 202 && (body is Err
                ==> body->Err_0.status != 202) ==> known && body is Ok && delivered == Some(true)
        }),
{
}

/// What happened, and what is to be done, is told with the whole message or reply that it is about.
pub proof fn law_events_and_actions_are_told_in_full(event: PostEvent, action: PostAction)
    ensures
        event is Rejected ==> event@ == PostEventView::Rejected(event->Rejected_0@),
        event is Read ==> event@ == PostEventView::Read(event->Read_0),
        event is Delivered ==> event@ == PostEventView::Delivered,
        event is ReceiverGone ==> event@ == PostEventView::ReceiverGone,
        action is Deliver ==> action@ == PostActionView::Deliver(action->Deliver_0),
        action is Respond ==> action@ == PostActionView::Respond(action->Respond_0@),
        action is TearDown ==> action@ == PostActionView::TearDown(
            action->TearDown_0,
            action->TearDown_1@,
        ),
{
}

} // verus!
