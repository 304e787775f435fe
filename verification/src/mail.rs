//! What passes between clients and services while sessions come and go: every message reaches the
//! service that it is for, in order, and no other, and so does every reply; and a queue that is
//! full holds a message up without losing any.
use vstd::prelude::*;

use tokio::sync::mpsc::Sender;

use crate::config::{same_settings, SseServerConfig};
use crate::endpoint::{announced, law_announced_address_names_its_session, prefix_text};
use crate::message::{ClientJsonRpcMessage, ServerJsonRpcMessage};
use crate::post::{body_event, exchange, post_next, PostActionView, PostOutcome};
use crate::reply::{accepted, session_terminated, ReplyView};
use crate::server::{is_set_up, routed, NewSession, RouteView};
use crate::sessions::{queue_capacity, queue_sender, registered, SseSessionEntry};
use crate::stream::{all_events, endpoint_event, law_address_comes_first_and_once, message_event};
use crate::stream::{message_events, messages_before_end, EventView, Outbound};
use crate::text::{after, before, occurs};

verus! {

/// One message that a client posts.
pub struct Post {
    /// The session that it is posted to.
    pub sid: Seq<char>,
    /// The message that was read out of the body, or the reply that it is none.
    pub body: Result<ClientJsonRpcMessage, ReplyView>,
}

/// One session, as far as messages go.
pub struct Opened {
    /// Its id.
    pub sid: Seq<char>,
    /// What is put into the table for it, with the queue into its service.
    pub entry: SseSessionEntry,
    /// The queue from its service to its event stream.
    pub outbound: Sender<ServerJsonRpcMessage>,
}

/// What became of a queue.
#[verifier::ext_equal]
pub struct Queue {
    /// All that was ever put into it, in order.
    pub messages: Seq<serde_json::Value>,
    /// How many of these were taken out again.
    pub taken: nat,
    /// Whether its receiving end is still there.
    pub open: bool,
}

/// One thing that happens to the table or to a queue.
pub enum Traffic {
    /// A session is opened.
    Open(Opened),
    /// A session is to be put into the table; the flag says whether it was cancelled before.
    Register(int, bool),
    /// A session is taken out of the table.
    Remove(Seq<char>),
    /// A client posts a message.
    Post(Post),
    /// The service of a session has a message for its client.
    Reply(int, ServerJsonRpcMessage),
    /// The next message is taken out of a queue.
    Take(Sender<serde_json::Value>),
    /// The receiving end of a queue goes away.
    Close(Sender<serde_json::Value>),
}

/// The table, the queues, and the sessions that were ever opened.
#[verifier::ext_equal]
pub struct Mail {
    /// The table of sessions.
    pub sessions: Map<Seq<char>, SseSessionEntry>,
    /// For each id in the table, which session its entry is of.
    pub owners: Map<Seq<char>, int>,
    /// The queues.
    pub queues: Map<Sender<serde_json::Value>, Queue>,
    /// The sessions, in the order in which they were opened.
    pub opened: Seq<Opened>,
}

/// Before the first session.
pub open spec fn empty_mail() -> Mail {
    Mail {
        sessions: Map::empty(),
        owners: Map::empty(),
        queues: Map::empty(),
        opened: Seq::empty(),
    }
}

/// A queue that was just made.
pub open spec fn new_queue() -> Queue {
    Queue { messages: Seq::empty(), taken: 0, open: true }
}

/// How many messages wait in a queue.
pub open spec fn waiting(queue: Queue) -> int {
    queue.messages.len() - queue.taken
}

/// What becomes of a message that is offered to a queue: it is taken where there is room, refused
/// where the receiving end is gone, and held up otherwise.
pub open spec fn offered(mail: Mail, to: Sender<serde_json::Value>) -> Option<bool> {
    if !mail.queues[to].open {
        Some(false)
    } else if waiting(mail.queues[to]) < queue_capacity(to) {
        Some(true)
    } else {
        None
    }
}

/// The same with another state of one queue.
pub open spec fn with_queue(mail: Mail, of: Sender<serde_json::Value>, queue: Queue) -> Mail {
    Mail { queues: mail.queues.insert(of, queue), ..mail }
}

/// The same with one more message in a queue.
pub open spec fn put(
    mail: Mail,
    to: Sender<serde_json::Value>,
    message: serde_json::Value,
) -> Mail {
    let queue = mail.queues[to];
    with_queue(mail, to, Queue { messages: queue.messages.push(message), ..queue })
}

/// What the worker does with a message for a session of the table.
pub open spec fn delivery(mail: Mail, post: Post) -> Option<bool> {
    offered(mail, mail.sessions[post.sid].inbound)
}

/// How a posted message is answered; `None` as long as it is held up.
pub open spec fn answer(mail: Mail, post: Post) -> Option<PostOutcome> {
    exchange(mail.sessions, post.sid, post.body, delivery(mail, post))
}

/// What of a post is handed over to a worker: the message that the exchange asks to deliver, where
/// the session is known and its worker takes the message.
pub open spec fn handed_over(mail: Mail, post: Post) -> Option<ClientJsonRpcMessage> {
    match post_next(body_event(post.body)).1 {
        PostActionView::Deliver(message) if mail.sessions.contains_key(post.sid) && delivery(
            mail,
            post,
        ) == Some(true) => Some(message),
        _ => None,
    }
}

/// Whether the queues of a session are new: each one is made for it when it is opened.
pub open spec fn has_new_queues(mail: Mail, session: Opened) -> bool {
    &&& !mail.queues.contains_key(session.entry.inbound)
    &&& !mail.queues.contains_key(session.outbound)
    &&& session.entry.inbound != session.outbound
}

/// After one thing has happened. A session is opened with new queues. A message that is handed over
/// goes into the queue of the entry that is found under its session; one that is held up changes
/// nothing. Nor does what is asked of a session that was never opened, or of an empty queue.
pub open spec fn carried(mail: Mail, step: Traffic) -> Mail {
    match step {
        Traffic::Open(session) => if has_new_queues(mail, session) {
            Mail {
                queues: mail.queues.insert(session.entry.inbound, new_queue()).insert(
                    session.outbound,
                    new_queue(),
                ),
                opened: mail.opened.push(session),
                ..mail
            }
        } else {
            mail
        },
        Traffic::Register(i, cancelled) => if 0 <= i < mail.opened.len() && !cancelled {
            let session = mail.opened[i];
            Mail {
                sessions: registered(mail.sessions, session.sid, session.entry, cancelled),
                owners: mail.owners.insert(session.sid, i),
                ..mail
            }
        } else {
            mail
        },
        Traffic::Remove(sid) => Mail {
            sessions: mail.sessions.remove(sid),
            owners: mail.owners.remove(sid),
            ..mail
        },
        Traffic::Post(post) => match answer(mail, post) {
            Some(outcome) => {
                let queued = match handed_over(mail, post) {
                    Some(message) => put(mail, mail.sessions[post.sid].inbound, message),
                    None => mail,
                };
                Mail {
                    sessions: outcome.sessions,
                    owners: mail.owners.restrict(outcome.sessions.dom()),
                    ..queued
                }
            },
            None => mail,
        },
        Traffic::Reply(i, message) => if 0 <= i < mail.opened.len() && offered(
            mail,
            mail.opened[i].outbound,
        ) == Some(true) {
            put(mail, mail.opened[i].outbound, message)
        } else {
            mail
        },
        Traffic::Take(from) => if mail.queues.contains_key(from) && waiting(mail.queues[from])
            > 0 {
            let queue = mail.queues[from];
            with_queue(mail, from, Queue { taken: queue.taken + 1, ..queue })
        } else {
            mail
        },
        Traffic::Close(of) => if mail.queues.contains_key(of) {
            with_queue(mail, of, Queue { open: false, ..mail.queues[of] })
        } else {
            mail
        },
    }
}

/// After several things have happened.
pub open spec fn carried_all(mail: Mail, steps: Seq<Traffic>) -> Mail
    decreases steps.len(),
{
    if steps.len() == 0 {
        mail
    } else {
        carried_all(carried(mail, steps[0]), steps.drop_first())
    }
}

/// Whether two sessions have four different queues.
pub open spec fn have_own_queues(a: Opened, b: Opened) -> bool {
    &&& a.entry.inbound != b.entry.inbound
    &&& a.entry.inbound != b.outbound
    &&& a.outbound != b.entry.inbound
    &&& a.outbound != b.outbound
}

/// Whether a queue can be as it is: no more was taken out than put in, and no more waits in it than
/// it can hold.
pub open spec fn is_kept(of: Sender<serde_json::Value>, queue: Queue) -> bool {
    0 <= waiting(queue) <= queue_capacity(of)
}

/// Whether the entry under an id is that of a session of that id.
pub open spec fn has_session(mail: Mail, sid: Seq<char>) -> bool {
    &&& mail.owners.contains_key(sid)
    &&& 0 <= mail.owners[sid] < mail.opened.len()
    &&& mail.opened[mail.owners[sid]].sid == sid
    &&& mail.opened[mail.owners[sid]].entry == mail.sessions[sid]
}

/// What holds at all times: every session has two queues that no other session has, every queue
/// holds what it can hold, and every entry of the table is that of a session.
pub open spec fn mail_in_order(mail: Mail) -> bool {
    &&& forall|i: int|
        0 <= i < mail.opened.len() ==> {
            &&& mail.queues.contains_key((#[trigger] mail.opened[i]).entry.inbound)
            &&& mail.queues.contains_key(mail.opened[i].outbound)
            &&& mail.opened[i].entry.inbound != mail.opened[i].outbound
        }
    &&& forall|i: int, j: int|
        0 <= i < mail.opened.len() && 0 <= j < mail.opened.len() && i != j ==> have_own_queues(
            #[trigger] mail.opened[i],
            #[trigger] mail.opened[j],
        )
    &&& forall|of: Sender<serde_json::Value>| #[trigger]
        mail.queues.contains_key(of) ==> is_kept(of, mail.queues[of])
    &&& forall|sid: Seq<char>| #[trigger]
        mail.sessions.contains_key(sid) ==> has_session(mail, sid)
    &&& mail.owners.dom() == mail.sessions.dom()
}

/// Before the first session all is in order.
pub proof fn law_mail_starts_in_order()
    ensures
        mail_in_order(empty_mail()),
{
    assert(empty_mail().owners.dom() =~= empty_mail().sessions.dom());
}

/// Whatever happens, each session keeps its two queues for itself, no queue holds more than it can,
/// and each entry of the table leads to a session of its id.
pub proof fn law_mail_stays_in_order(mail: Mail, step: Traffic)
    requires
        mail_in_order(mail),
    ensures
        mail_in_order(carried(mail, step)),
{
    let next = carried(mail, step);
    assert(next.owners.dom() =~= next.sessions.dom());
    assert forall|sid: Seq<char>| #[trigger] next.sessions.contains_key(sid) implies has_session(
        next,
        sid,
    ) by {
        if mail.sessions.contains_key(sid) {
            assert(has_session(mail, sid));
        }
    }
    assert forall|of: Sender<serde_json::Value>| #[trigger]
        next.queues.contains_key(of) implies is_kept(of, next.queues[of]) by {
        assert(mail.queues.contains_key(of) ==> is_kept(of, mail.queues[of]));
        if let Traffic::Post(post) = step {
            if mail.sessions.contains_key(post.sid) {
                assert(has_session(mail, post.sid));
            }
        }
    }
}

/// The same over any number of steps.
pub proof fn law_every_run_keeps_mail_in_order(mail: Mail, steps: Seq<Traffic>)
    requires
        mail_in_order(mail),
    ensures
        mail_in_order(carried_all(mail, steps)),
    decreases steps.len(),
{
    if steps.len() > 0 {
        law_mail_stays_in_order(mail, steps[0]);
        law_every_run_keeps_mail_in_order(carried(mail, steps[0]), steps.drop_first());
    }
}

/// Whether session `i` stands in the table: a message posted to its id is for it.
pub open spec fn is_addressed(mail: Mail, i: int) -> bool {
    &&& 0 <= i < mail.opened.len()
    &&& mail.owners.contains_key(mail.opened[i].sid)
    &&& mail.owners[mail.opened[i].sid] == i
}

/// Whether something that happens is that a message posted to session `i` is answered with 202.
pub open spec fn is_accepted(mail: Mail, step: Traffic, i: int) -> bool {
    &&& step matches Traffic::Post(post)
    &&& post.body is Ok
    &&& is_addressed(mail, i)
    &&& post.sid == mail.opened[i].sid
    &&& answer(mail, post) is Some
    &&& answer(mail, post)->0.reply == accepted()
}

/// The messages that are posted to session `i` and answered with 202, in order.
pub open spec fn accepted_by(mail: Mail, steps: Seq<Traffic>, i: int) -> Seq<ClientJsonRpcMessage>
    decreases steps.len(),
{
    if steps.len() == 0 {
        Seq::empty()
    } else {
        let rest = accepted_by(carried(mail, steps[0]), steps.drop_first(), i);
        if is_accepted(mail, steps[0], i) {
            seq![steps[0]->Post_0.body->Ok_0] + rest
        } else {
            rest
        }
    }
}

/// The messages that are posted to an id, in order.
pub open spec fn posted_to(steps: Seq<Traffic>, sid: Seq<char>) -> Seq<ClientJsonRpcMessage>
    decreases steps.len(),
{
    if steps.len() == 0 {
        Seq::empty()
    } else {
        let rest = posted_to(steps.drop_first(), sid);
        match steps[0] {
            Traffic::Post(post) => if post.sid == sid && post.body is Ok {
                seq![post.body->Ok_0] + rest
            } else {
                rest
            },
            _ => rest,
        }
    }
}

/// Whether every message that is posted to the id of session `i` is for it and is answered with 202.
pub open spec fn all_are_accepted(mail: Mail, steps: Seq<Traffic>, i: int) -> bool
    decreases steps.len(),
{
    steps.len() == 0 || {
        &&& steps[0] matches Traffic::Post(post) ==> post.sid == mail.opened[i].sid
            && post.body is Ok ==> is_accepted(mail, steps[0], i)
        &&& all_are_accepted(carried(mail, steps[0]), steps.drop_first(), i)
    }
}

/// One step puts into the queue of a service what is accepted for it, and nothing else.
proof fn lemma_one_step(mail: Mail, step: Traffic, i: int)
    requires
        mail_in_order(mail),
        0 <= i < mail.opened.len(),
    ensures
        ({
            let inbound = mail.opened[i].entry.inbound;
            let next = carried(mail, step);
            &&& next.opened.len() >= mail.opened.len()
            &&& next.opened[i] == mail.opened[i]
            &&& next.queues[inbound].messages == if is_accepted(mail, step, i) {
                mail.queues[inbound].messages.push(step->Post_0.body->Ok_0)
            } else {
                mail.queues[inbound].messages
            }
        }),
{
    match step {
        Traffic::Post(post) => {
            if mail.sessions.contains_key(post.sid) {
                assert(has_session(mail, post.sid));
                let j = mail.owners[post.sid];
                assert(i != j ==> have_own_queues(mail.opened[i], mail.opened[j]));
            }
        },
        Traffic::Reply(j, message) => {
            assert(0 <= j < mail.opened.len() && i != j ==> have_own_queues(
                mail.opened[i],
                mail.opened[j],
            ));
        },
        _ => {},
    }
}

/// The messages that are posted to a session and answered with 202 go into the queue of its
/// service in the order in which they come, each one once, and nothing else goes in, whatever is
/// posted to other sessions and however sessions come and go meanwhile. Where every message posted
/// to the session is answered with 202, these are all of them.
pub proof fn law_messages_arrive_in_order(mail: Mail, steps: Seq<Traffic>, i: int)
    requires
        mail_in_order(mail),
        0 <= i < mail.opened.len(),
    ensures
        ({
            let inbound = mail.opened[i].entry.inbound;
            &&& carried_all(mail, steps).opened[i] == mail.opened[i]
            &&& carried_all(mail, steps).queues[inbound].messages == mail.queues[inbound].messages
                + accepted_by(mail, steps, i)
            &&& all_are_accepted(mail, steps, i) ==> accepted_by(mail, steps, i) == posted_to(
                steps,
                mail.opened[i].sid,
            )
        }),
    decreases steps.len(),
{
    let before = mail.queues[mail.opened[i].entry.inbound].messages;
    if steps.len() == 0 {
        assert(before + Seq::empty() =~= before);
    } else {
        let next = carried(mail, steps[0]);
        let rest = steps.drop_first();
        lemma_one_step(mail, steps[0], i);
        law_mail_stays_in_order(mail, steps[0]);
        law_messages_arrive_in_order(next, rest, i);
        let later = accepted_by(next, rest, i);
        if is_accepted(mail, steps[0], i) {
            let message = steps[0]->Post_0.body->Ok_0;
            assert(before.push(message) + later =~= before + (seq![message] + later));
        }
    }
}

/// No message that is in a queue is dropped or overwritten, whatever happens: it stays where it is,
/// and it waits until it is taken.
pub proof fn law_no_message_is_lost(
    mail: Mail,
    steps: Seq<Traffic>,
    of: Sender<serde_json::Value>,
)
    requires
        mail_in_order(mail),
        mail.queues.contains_key(of),
    ensures
        ({
            let now = mail.queues[of];
            let then = carried_all(mail, steps).queues[of];
            &&& carried_all(mail, steps).queues.contains_key(of)
            &&& is_kept(of, then)
            &&& now.messages.is_prefix_of(then.messages)
            &&& now.taken <= then.taken
            &&& (forall|n: int| 0 <= n < steps.len() ==> #[trigger] steps[n] != Traffic::Take(of))
                ==> now.taken == then.taken
            &&& (forall|n: int| 0 <= n < steps.len() ==> #[trigger] steps[n] != Traffic::Close(of))
                ==> now.open == then.open
        }),
    decreases steps.len(),
{
    if steps.len() > 0 {
        let next = carried(mail, steps[0]);
        let rest = steps.drop_first();
        law_mail_stays_in_order(mail, steps[0]);
        law_no_message_is_lost(next, rest, of);
        assert(forall|n: int| 0 <= n < rest.len() ==> #[trigger] rest[n] == steps[n + 1]);
        assert(steps[0] == Traffic::Take(of) || next.queues[of].taken == mail.queues[of].taken);
        assert(steps[0] == Traffic::Close(of) || next.queues[of].open == mail.queues[of].open);
        assert(mail.queues[of].messages.is_prefix_of(next.queues[of].messages));
    }
}

/// The session that was set up, as far as messages go.
pub open spec fn opened_as<S>(session: NewSession<S>) -> Opened {
    Opened { sid: session.session_id@, entry: session.entry, outbound: session.outbound }
}

/// Messages posted to an id one after the other.
pub open spec fn posts(sid: Seq<char>, messages: Seq<ClientJsonRpcMessage>) -> Seq<Traffic> {
    messages.map_values(
        |message: ClientJsonRpcMessage| Traffic::Post(Post { sid, body: Ok(message) }),
    )
}

/// As many messages as the configuration has room for are answered with 202 at once, though the
/// service takes none of them, and wait in its queue in order.
pub proof fn law_a_queue_takes_what_it_has_room_for<S>(
    config: SseServerConfig,
    session: NewSession<S>,
    mail: Mail,
    i: int,
    messages: Seq<ClientJsonRpcMessage>,
)
    requires
        mail_in_order(mail),
        is_set_up(session, config),
        is_addressed(mail, i),
        mail.opened[i] == opened_as(session),
        mail.queues[session.entry.inbound].open,
        waiting(mail.queues[session.entry.inbound]) + messages.len() <= config.post_inbound_buffer,
    ensures
        ({
            let steps = posts(session.session_id@, messages);
            let end = carried_all(mail, steps);
            &&& all_are_accepted(mail, steps, i)
            &&& is_addressed(end, i)
            &&& end.sessions == mail.sessions
            &&& end.queues[session.entry.inbound].messages
                == mail.queues[session.entry.inbound].messages + messages
            &&& end.queues[session.entry.inbound].taken
                == mail.queues[session.entry.inbound].taken
        }),
    decreases messages.len(),
{
    let inbound = session.entry.inbound;
    let steps = posts(session.session_id@, messages);
    if messages.len() == 0 {
        assert(mail.queues[inbound].messages + messages =~= mail.queues[inbound].messages);
    } else {
        let next = carried(mail, steps[0]);
        let rest = messages.drop_first();
        assert(mail.owners.dom().contains(session.session_id@));
        assert(mail.sessions.contains_key(session.session_id@));
        assert(has_session(mail, session.session_id@));
        assert(is_accepted(mail, steps[0], i));
        lemma_one_step(mail, steps[0], i);
        law_mail_stays_in_order(mail, steps[0]);
        assert(steps.drop_first() =~= posts(session.session_id@, rest));
        law_a_queue_takes_what_it_has_room_for(config, session, next, i, rest);
        assert(mail.queues[inbound].messages.push(messages[0]) + rest
            =~= mail.queues[inbound].messages + messages);
    }
}

/// A message that is posted to a session whose queue is full is held up, however long: until the
/// service takes a message or closes its end, the post is not answered, and it changes nothing, so
/// that none of the messages before it is dropped, overwritten or rejected. Once a message was
/// taken, it is answered with 202 and comes after all the others; once the receiving end is gone,
/// with 410.
pub proof fn law_a_full_queue_holds_messages_up<S>(
    config: SseServerConfig,
    session: NewSession<S>,
    mail: Mail,
    i: int,
    message: ClientJsonRpcMessage,
    steps: Seq<Traffic>,
)
    requires
        mail_in_order(mail),
        is_set_up(session, config),
        config.post_inbound_buffer > 0,
        0 <= i < mail.opened.len(),
        mail.opened[i] == opened_as(session),
        mail.queues[session.entry.inbound].open,
        waiting(mail.queues[session.entry.inbound]) == config.post_inbound_buffer,
        forall|n: int|
            0 <= n < steps.len() ==> #[trigger] steps[n] != Traffic::Take(session.entry.inbound)
                && steps[n] != Traffic::Close(session.entry.inbound),
        is_addressed(carried_all(mail, steps), i),
    ensures
        ({
            let inbound = session.entry.inbound;
            let post = Post { sid: session.session_id@, body: Ok(message) };
            let full = carried_all(mail, steps);
            let roomy = carried(full, Traffic::Take(inbound));
            let shut = carried(full, Traffic::Close(inbound));
            &&& full.queues[inbound] == mail.queues[inbound]
            &&& answer(full, post) is None
            &&& carried(full, Traffic::Post(post)) == full
            &&& answer(roomy, post) is Some
            &&& answer(roomy, post)->0.reply == accepted()
            &&& carried(roomy, Traffic::Post(post)).queues[inbound].messages
                == mail.queues[inbound].messages.push(message)
            &&& answer(shut, post) is Some
            &&& answer(shut, post)->0.reply == session_terminated()
        }),
{
    let inbound = session.entry.inbound;
    let full = carried_all(mail, steps);
    assert(mail.queues.contains_key(mail.opened[i].entry.inbound));
    law_every_run_keeps_mail_in_order(mail, steps);
    law_messages_arrive_in_order(mail, steps, i);
    law_no_message_is_lost(mail, steps, inbound);
    assert(full.queues[inbound].messages =~= mail.queues[inbound].messages);
    assert(full.owners.dom().contains(session.session_id@));
    assert(full.sessions.contains_key(session.session_id@));
    assert(has_session(full, session.session_id@));
}

/// Messages as an event stream finds them.
pub open spec fn found(messages: Seq<ServerJsonRpcMessage>) -> Seq<Outbound> {
    messages.map_values(|message: ServerJsonRpcMessage| Outbound::Message(message))
}

/// The events that a session's stream has sent once it has taken all that was put into its queue.
pub open spec fn shown<S>(mail: Mail, session: NewSession<S>) -> Seq<EventView> {
    all_events(
        session.stream.payload(),
        false,
        found(mail.queues[queue_sender(session.messages)].messages),
    )
}

/// All that an event stream finds is messages, so it takes them all.
proof fn lemma_found(messages: Seq<ServerJsonRpcMessage>)
    ensures
        messages_before_end(found(messages)) == messages.len(),
    decreases messages.len(),
{
    if messages.len() > 0 {
        lemma_found(messages.drop_first());
        assert(found(messages).drop_first() =~= found(messages.drop_first()));
    }
}

/// One more message in the queue is one more event on the stream.
proof fn lemma_one_more_event(
    payload: Seq<char>,
    messages: Seq<ServerJsonRpcMessage>,
    message: ServerJsonRpcMessage,
)
    ensures
        all_events(payload, false, found(messages.push(message))) == all_events(
            payload,
            false,
            found(messages),
        ).push(message_event(message)),
{
    let more = messages.push(message);
    lemma_found(messages);
    lemma_found(more);
    law_address_comes_first_and_once(payload, false, found(messages));
    law_address_comes_first_and_once(payload, false, found(more));
    assert(found(messages).take(messages.len() as int) =~= found(messages));
    assert(found(more).take(more.len() as int) =~= found(more));
    assert(message_events(found(more)) =~= message_events(found(messages)).push(
        message_event(message),
    ));
    let first = seq![endpoint_event(payload)];
    assert(first + message_events(found(messages)).push(message_event(message)) =~= (first
        + message_events(found(messages))).push(message_event(message)));
}

/// Two sessions that are open at one server, or at clones of it, are kept apart. A message posted
/// to the address that was announced to the client of `a` is routed to `a` and found under its
/// entry; where its queue has room, it is answered with 202 and reaches the service of `a` and not
/// that of `b`. A message of the service of `a` is sent on the stream of `a` and not on that of
/// `b`. This asks that no prefix stands before the announced address, that the message path holds
/// no `?` and the id no `&`, as no id of a session does, and that the `Host` header is accepted.
pub proof fn law_open_sessions_are_kept_apart<S>(
    config: SseServerConfig,
    config_of_a: SseServerConfig,
    config_of_b: SseServerConfig,
    a: NewSession<S>,
    b: NewSession<S>,
    mail: Mail,
    i: int,
    j: int,
    message: ClientJsonRpcMessage,
    reply: ServerJsonRpcMessage,
)
    requires
        same_settings(config_of_a, config),
        same_settings(config_of_b, config),
        config.endpoint_prefix is None,
        !occurs(config.post_path@, '?'),
        is_set_up(a, config_of_a),
        is_set_up(b, config_of_b),
        !occurs(a.session_id@, '&'),
        mail_in_order(mail),
        is_addressed(mail, i),
        mail.opened[i] == opened_as(a),
        0 <= j < mail.opened.len(),
        mail.opened[j] == opened_as(b),
        i != j,
        offered(mail, a.entry.inbound) == Some(true),
        offered(mail, a.outbound) == Some(true),
    ensures
        ({
            let address = a.stream.payload();
            let post = Post { sid: a.session_id@, body: Ok(message) };
            let posted = carried(mail, Traffic::Post(post));
            let replied = carried(posted, Traffic::Reply(i, reply));
            &&& occurs(address, '?')
            &&& routed(
                config.sse_path@,
                config.post_path@,
                "POST"@,
                before(address, '?'),
                Some(after(address, '?')),
                true,
            ) == RouteView::Post(a.session_id@)
            &&& answer(mail, post) is Some
            &&& answer(mail, post)->0.reply == accepted()
            &&& posted.sessions == mail.sessions
            &&& posted.queues[queue_sender(a.inbound)].messages == mail.queues[queue_sender(
                a.inbound,
            )].messages.push(message)
            &&& posted.queues[queue_sender(b.inbound)] == mail.queues[queue_sender(b.inbound)]
            &&& replied.queues[queue_sender(b.inbound)] == mail.queues[queue_sender(b.inbound)]
            &&& shown(replied, a) == shown(mail, a).push(message_event(reply))
            &&& shown(replied, b) == shown(mail, b)
        }),
{
    reveal_strlit("GET");
    reveal_strlit("POST");
    assert("GET"@.len() != "POST"@.len());
    let path = config.post_path@;
    let prefix = prefix_text(config_of_a.endpoint_prefix);
    assert(prefix + path =~= path);
    law_announced_address_names_its_session(prefix, path, a.session_id@);
    assert(a.stream.payload() == announced(prefix, path, a.session_id@));
    assert(mail.owners.dom().contains(a.session_id@));
    assert(mail.sessions.contains_key(a.session_id@));
    assert(has_session(mail, a.session_id@));
    assert(have_own_queues(mail.opened[i], mail.opened[j]));
    lemma_one_more_event(a.stream.payload(), mail.queues[a.outbound].messages, reply);
}

/// A posted message is answered with 202 only where it was handed over, and then it is the last one
/// in the queue of the entry that stands under its id. This asks that the reply to a body that is
/// no message is another.
pub proof fn law_202_means_that_the_message_is_in_the_queue(mail: Mail, post: Post)
    requires
        mail_in_order(mail),
        post.body is Err ==> post.body->Err_0.status != 202,
        answer(mail, post) is Some,
        answer(mail, post)->0.reply.status == 202,
    ensures
        mail.sessions.contains_key(post.sid),
        post.body is Ok,
        ({
            let inbound = mail.sessions[post.sid].inbound;
            carried(mail, Traffic::Post(post)).queues[inbound].messages
                == mail.queues[inbound].messages.push(post.body->Ok_0)
        }),
{
}

} // verus!
