//! The table of sessions that a message can be posted to.
use vstd::hash_map::StringHashMap;
use vstd::prelude::*;

use std::sync::Arc;
use tokio::sync::mpsc::Receiver;
use tokio::sync::mpsc::Sender;
use tokio::sync::RwLock;
use tokio_util::sync::CancellationToken;

use crate::endpoint::SessionId;
use crate::message::ClientJsonRpcMessage;
use crate::reply::{unknown_session, unknown_session_reply, Reply};

verus! {

/// `tokio::sync::mpsc::Sender`: the sending end of a queue. Verus sees nothing inside it; two
/// senders into the same queue are one value.
#[verifier::external_type_specification]
#[verifier::external_body]
#[verifier::reject_recursive_types(T)]
pub struct ExSender<T>(tokio::sync::mpsc::Sender<T>);

/// Cloning a `Sender` gives another sender into the same queue.
pub assume_specification<T>[ <Sender<T> as Clone>::clone ](sender: &Sender<T>) -> (other: Sender<T>)
    ensures
        other == *sender,
;

/// `tokio::sync::mpsc::Receiver`: the receiving end of a queue. Verus sees nothing inside it.
#[verifier::external_type_specification]
#[verifier::external_body]
#[verifier::reject_recursive_types(T)]
pub struct ExReceiver<T>(tokio::sync::mpsc::Receiver<T>);

/// How many messages the queue behind a sender was made to hold.
pub uninterp spec fn queue_capacity(sender: Sender<serde_json::Value>) -> nat;

/// The sender into the queue that a receiver takes messages from.
pub uninterp spec fn queue_sender(receiver: Receiver<serde_json::Value>) -> Sender<
    serde_json::Value,
>;

/// Whether a bounded queue can have this capacity: at least one message, and no more than an
/// eighth of what a `usize` can count.
pub open spec fn is_queue_capacity(capacity: usize) -> bool {
    0 < capacity <= usize::MAX / 8
}

/// `tokio::sync::mpsc::channel` makes a queue of its own, with the given capacity, and gives its
/// two ends. It panics on a capacity that a queue cannot have. What is in the queue at a given
/// time depends on those who hold its ends, so that is not stated.
#[verifier::external_body]
pub(crate) fn queue(capacity: usize) -> (ends: (
    Sender<serde_json::Value>,
    Receiver<serde_json::Value>,
))
    requires
        is_queue_capacity(capacity),
    ensures
        queue_capacity(ends.0) == capacity,
        queue_sender(ends.1) == ends.0,
{
    tokio::sync::mpsc::channel(capacity)
}

/// One session of the table.
pub struct SseSessionEntry {
    /// The queue into the session's service.
    pub inbound: Sender<ClientJsonRpcMessage>,
    /// The session's own token. It is cancelled when the event stream ends, when a message cannot
    /// be delivered and when the service exits.
    pub cancel: CancellationToken,
}

impl Clone for SseSessionEntry {
    fn clone(&self) -> (entry: Self)
        ensures
            entry == *self,
    {
        SseSessionEntry { inbound: self.inbound.clone(), cancel: self.cancel.clone() }
    }
}

/// The table after a session was put into it, unless it was cancelled before.
pub open spec fn registered(
    sessions: Map<Seq<char>, SseSessionEntry>,
    sid: Seq<char>,
    entry: SseSessionEntry,
    cancelled: bool,
) -> Map<Seq<char>, SseSessionEntry> {
    if cancelled {
        sessions
    } else {
        sessions.insert(sid, entry)
    }
}

/// The sessions by their ids.
pub struct SessionMap {
    entries: StringHashMap<SseSessionEntry>,
}

impl View for SessionMap {
    type V = Map<Seq<char>, SseSessionEntry>;

    closed spec fn view(&self) -> Map<Seq<char>, SseSessionEntry> {
        self.entries@
    }
}

impl SessionMap {
    /// A table without sessions.
    pub fn new() -> (sessions: Self)
        ensures
            sessions@ == Map::<Seq<char>, SseSessionEntry>::empty(),
    {
        SessionMap { entries: StringHashMap::new() }
    }

    /// Puts a session into the table. `cancelled` says whether its token is cancelled by now: the
    /// service may have exited already, and then nothing would take the entry out again, so it is
    /// not put in. Gives back whether it was.
    pub fn register(&mut self, sid: SessionId, entry: SseSessionEntry, cancelled: bool) -> (kept:
        bool)
        ensures
            kept == !cancelled,
            final(self)@ == registered(old(self)@, sid@, entry, cancelled),
            cancelled ==> final(self)@ == old(self)@,
            !cancelled ==> final(self)@ == old(self)@.insert(sid@, entry),
    {
        if cancelled {
            return false;
        }
        self.entries.insert(sid, entry);
        true
    }

    /// Takes a session out of the table, where it is there.
    pub fn remove(&mut self, sid: &str)
        ensures
            final(self)@ == old(self)@.remove(sid@),
    {
        self.entries.remove(sid);
    }

    /// The session that a message is for, or the reply that there is none.
    pub fn find_session(&self, sid: &str) -> (entry: Result<SseSessionEntry, Reply>)
        ensures
            match entry {
                Ok(e) => self@.contains_key(sid@) && e == self@[sid@],
                Err(reply) => !self@.contains_key(sid@) && reply@ == unknown_session(sid@),
            },
            entry matches Err(reply) ==> reply.status == 404 && reply.body@ == "Session "@ + sid@
                + " not found"@,
    {
        match self.entries.get(sid) {
            Some(entry) => Ok(entry.clone()),
            None => Err(unknown_session_reply(sid)),
        }
    }
}

/// `tokio::sync::RwLock`: a value behind a lock. Verus sees nothing inside it.
#[verifier::external_type_specification]
#[verifier::external_body]
#[verifier::reject_recursive_types(T)]
pub struct ExRwLock<T: ?Sized>(tokio::sync::RwLock<T>);

/// The ids of the sessions that a table held when it was put behind its lock.
pub uninterp spec fn ids_at_creation(lock: RwLock<SessionMap>) -> Set<Seq<char>>;

/// `RwLock::new` puts a value behind a lock of its own. What the table holds later depends on
/// those who take the lock; stated is what it holds at first.
#[verifier::external_body]
pub(crate) fn lock_sessions(sessions: SessionMap) -> (lock: RwLock<SessionMap>)
    ensures
        ids_at_creation(lock) == sessions@.dom(),
{
    RwLock::new(sessions)
}

/// `Arc::clone` gives another pointer to the same value.
#[verifier::external_body]
pub(crate) fn share<T>(pointer: &Arc<T>) -> (other: Arc<T>)
    ensures
        other == *pointer,
{
    Arc::clone(pointer)
}

/// What happens to one session leaves every other session of the table as it was.
pub proof fn law_sessions_do_not_touch_each_other(
    sessions: Map<Seq<char>, SseSessionEntry>,
    sid: Seq<char>,
    entry: SseSessionEntry,
    cancelled: bool,
    other: Seq<char>,
)
    requires
        other != sid,
    ensures
        registered(sessions, sid, entry, cancelled).contains_key(other) == sessions.contains_key(
            other,
        ),
        registered(sessions, sid, entry, cancelled)[other] == sessions[other],
        sessions.remove(sid).contains_key(other) == sessions.contains_key(other),
        sessions.contains_key(other) ==> sessions.remove(sid)[other] == sessions[other],
{
}

/// Taking out a session that was just put in leaves the table as it was before.
pub proof fn law_remove_undoes_register(
    sessions: Map<Seq<char>, SseSessionEntry>,
    sid: Seq<char>,
    entry: SseSessionEntry,
    cancelled: bool,
)
    requires
        !sessions.contains_key(sid),
    ensures
        registered(sessions, sid, entry, cancelled).remove(sid) == sessions,
{
    assert(registered(sessions, sid, entry, cancelled).remove(sid) =~= sessions);
}

/// A session that is put into the table in time is found under its id, with the entry that it was
/// given, whatever stood there before; one that was cancelled before changes nothing.
pub proof fn law_a_registered_session_is_found(
    sessions: Map<Seq<char>, SseSessionEntry>,
    sid: Seq<char>,
    entry: SseSessionEntry,
)
    ensures
        registered(sessions, sid, entry, false).contains_key(sid),
        registered(sessions, sid, entry, false)[sid] == entry,
        registered(sessions, sid, entry, true) == sessions,
{
}

/// A queue can be made to hold any number of messages from one up to an eighth of what a `usize`
/// can count.
pub proof fn law_queues_hold_at_least_one_message(capacity: usize)
    ensures
        is_queue_capacity(capacity) <==> 1 <= capacity && capacity <= usize::MAX / 8,
{
}

} // verus!
