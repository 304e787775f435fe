//! How a session ends, and that it leaves nothing behind.
//!
//! A session has three parts: a worker that runs its service, an event stream to its client, and
//! an entry in the table. Whichever way the end begins, all three have to go: a client that opens
//! a stream and hangs up is nothing unusual, and each one would otherwise stay for good.
use vstd::prelude::*;

use crate::sessions::{registered, SseSessionEntry};

verus! {

/// What can begin or carry on the end of a session.
#[derive(Debug, Clone, Copy, PartialEq, Eq, Structural)]
pub enum SessionEvent {
    /// The worker is done: its service returned, failed or panicked, or it was stopped.
    WorkerExited,
    /// The event stream is done: it came to its end, or the client hung up.
    StreamClosed,
    /// A message could not be handed to the worker.
    Undeliverable,
    /// The session's token was found cancelled.
    TokenCancelled,
}

/// What is to be done then.
#[derive(Debug, Clone, Copy, PartialEq, Eq, Structural)]
pub struct Reaction {
    /// Cancel the session's token.
    pub cancel: bool,
    /// Take the session out of the table.
    pub unregister: bool,
    /// Stop the worker and drop its service.
    pub stop_worker: bool,
    /// End the event stream.
    pub end_stream: bool,
}

/// What is to be done on an event.
pub open spec fn reaction(event: SessionEvent) -> Reaction {
    Reaction {
        cancel: event != SessionEvent::TokenCancelled,
        unregister: event == SessionEvent::WorkerExited || event == SessionEvent::Undeliverable,
        stop_worker: event == SessionEvent::TokenCancelled,
        end_stream: event == SessionEvent::TokenCancelled,
    }
}

/// What is to be done on an event.
pub fn react(event: SessionEvent) -> (todo: Reaction)
    ensures
        todo == reaction(event),
        todo.cancel <==> event is WorkerExited || event is StreamClosed || event is Undeliverable,
        todo.unregister <==> event is WorkerExited || event is Undeliverable,
        todo.stop_worker <==> event is TokenCancelled,
        todo.end_stream <==> event is TokenCancelled,
{
    match event {
        SessionEvent::WorkerExited | SessionEvent::Undeliverable => Reaction {
            cancel: true,
            unregister: true,
            stop_worker: false,
            end_stream: false,
        },
        SessionEvent::StreamClosed => Reaction {
            cancel: true,
            unregister: false,
            stop_worker: false,
            end_stream: false,
        },
        SessionEvent::TokenCancelled => Reaction {
            cancel: false,
            unregister: false,
            stop_worker: true,
            end_stream: true,
        },
    }
}

/// Where one session stands.
#[verifier::ext_equal]
pub struct Life {
    /// Its id.
    pub sid: Seq<char>,
    /// Whether its token is cancelled.
    pub cancelled: bool,
    /// Whether its worker runs.
    pub worker_running: bool,
    /// Whether its event stream is open.
    pub stream_open: bool,
    /// How often it is still to be taken out of the table: that has to wait for the table's lock.
    pub removals: nat,
}

/// Where the server stands: its own token, the table, and all sessions that were ever opened.
#[verifier::ext_equal]
pub struct World {
    /// Whether the server's own token is cancelled.
    pub shut_down: bool,
    /// The table of sessions.
    pub sessions: Map<Seq<char>, SseSessionEntry>,
    /// For each id in the table, which session its entry leads to.
    pub owners: Map<Seq<char>, int>,
    /// The sessions, in the order in which they were opened.
    pub lives: Seq<Life>,
}

/// One thing that happens to the server.
pub enum Step {
    /// A session of this id is opened: its worker starts and its stream opens.
    Open(Seq<char>),
    /// A session is to be put into the table.
    Register(int, SseSessionEntry),
    /// An event of a session, with what is done on it at once.
    Event(int, SessionEvent),
    /// A session is taken out of the table, as an event before asked for.
    Remove(int),
    /// The server's own token is cancelled, and with it those of all sessions.
    ShutDown,
}

/// The server before the first request.
pub open spec fn empty_world() -> World {
    World {
        shut_down: false,
        sessions: Map::empty(),
        owners: Map::empty(),
        lives: Seq::empty(),
    }
}

/// A session that was just opened. Its token is a child of the server's own.
pub open spec fn new_life(sid: Seq<char>, shut_down: bool) -> Life {
    Life { sid, cancelled: shut_down, worker_running: true, stream_open: true, removals: 0 }
}

/// A session after an event.
pub open spec fn life_after(life: Life, event: SessionEvent) -> Life {
    Life {
        sid: life.sid,
        cancelled: life.cancelled || reaction(event).cancel || event
            == SessionEvent::TokenCancelled,
        worker_running: life.worker_running && event != SessionEvent::WorkerExited,
        stream_open: life.stream_open && event != SessionEvent::StreamClosed,
        removals: if reaction(event).unregister {
            life.removals + 1
        } else {
            life.removals
        },
    }
}

/// The server after a step. A step of a session that was never opened changes nothing, nor does a
/// removal that was not asked for.
pub open spec fn advance(world: World, step: Step) -> World {
    match step {
        Step::Open(sid) => World {
            lives: world.lives.push(new_life(sid, world.shut_down)),
            ..world
        },
        Step::Register(k, entry) => if 0 <= k < world.lives.len() {
            let life = world.lives[k];
            World {
                sessions: registered(world.sessions, life.sid, entry, life.cancelled),
                owners: if life.cancelled {
                    world.owners
                } else {
                    world.owners.insert(life.sid, k)
                },
                ..world
            }
        } else {
            world
        },
        Step::Event(k, event) => if 0 <= k < world.lives.len() {
            World { lives: world.lives.update(k, life_after(world.lives[k], event)), ..world }
        } else {
            world
        },
        Step::Remove(k) => if 0 <= k < world.lives.len() && world.lives[k].removals > 0 {
            let life = world.lives[k];
            World {
                sessions: world.sessions.remove(life.sid),
                owners: world.owners.remove(life.sid),
                lives: world.lives.update(
                    k,
                    Life { removals: (life.removals - 1) as nat, ..life },
                ),
                ..world
            }
        } else {
            world
        },
        Step::ShutDown => World {
            shut_down: true,
            lives: world.lives.map_values(|life: Life| Life { cancelled: true, ..life }),
            ..world
        },
    }
}

/// The server after several steps.
pub open spec fn run(world: World, steps: Seq<Step>) -> World
    decreases steps.len(),
{
    if steps.len() == 0 {
        world
    } else {
        run(advance(world, steps[0]), steps.drop_first())
    }
}

/// The server after session `k` was taken out of the table `n` times.
pub open spec fn removed(world: World, k: int, n: nat) -> World
    decreases n,
{
    if n == 0 {
        world
    } else {
        removed(advance(world, Step::Remove(k)), k, (n - 1) as nat)
    }
}

/// What the server does of itself about session `k` once its token is cancelled: the worker is
/// stopped and so exits, the stream is ended and so closes, and what is to be taken out of the
/// table is taken out.
pub open spec fn settled(world: World, k: int) -> World {
    if 0 <= k < world.lives.len() && world.lives[k].cancelled {
        let todo = reaction(SessionEvent::TokenCancelled);
        let stopped = if todo.stop_worker && world.lives[k].worker_running {
            advance(world, Step::Event(k, SessionEvent::WorkerExited))
        } else {
            world
        };
        let closed = if todo.end_stream && stopped.lives[k].stream_open {
            advance(stopped, Step::Event(k, SessionEvent::StreamClosed))
        } else {
            stopped
        };
        removed(closed, k, closed.lives[k].removals)
    } else {
        world
    }
}

/// Whether a session is not yet done with its entry: its worker runs, or it is still to be taken
/// out of the table.
pub open spec fn holds_entry(life: Life) -> bool {
    life.worker_running || life.removals > 0
}

/// Whether session `k` stands in the table: a message posted to its id is handed to it.
pub open spec fn is_listed(world: World, k: int) -> bool {
    world.owners.contains_key(world.lives[k].sid) && world.owners[world.lives[k].sid] == k
}

/// Whether the entry under an id leads to a session of that id that is not yet done with it.
pub open spec fn has_owner(world: World, sid: Seq<char>) -> bool {
    &&& world.owners.contains_key(sid)
    &&& 0 <= world.owners[sid] < world.lives.len()
    &&& world.lives[world.owners[sid]].sid == sid
    &&& holds_entry(world.lives[world.owners[sid]])
}

/// What holds of the server at all times: a session that has lost its worker or its stream, or
/// that is to be taken out of the table, is cancelled, and so is every session after a shutdown;
/// and behind each entry of the table the worker of its session runs or the removal of the entry
/// is pending.
pub open spec fn in_order(world: World) -> bool {
    &&& forall|k: int|
        0 <= k < world.lives.len() && (!(#[trigger] world.lives[k]).worker_running
            || !world.lives[k].stream_open || world.lives[k].removals > 0 || world.shut_down)
            ==> world.lives[k].cancelled
    &&& forall|sid: Seq<char>| #[trigger]
        world.sessions.contains_key(sid) ==> has_owner(world, sid)
    &&& forall|sid: Seq<char>| #[trigger]
        world.owners.contains_key(sid) ==> world.sessions.contains_key(sid)
}

/// The server starts in order.
pub proof fn law_the_start_is_in_order()
    ensures
        in_order(empty_world()),
{
}

/// No step puts the server out of order.
pub proof fn law_every_step_keeps_order(world: World, step: Step)
    requires
        in_order(world),
    ensures
        in_order(advance(world, step)),
{
    let next = advance(world, step);
    assert forall|sid: Seq<char>| #[trigger] next.sessions.contains_key(sid) implies has_owner(
        next,
        sid,
    ) by {
        match step {
            Step::Register(k, entry) if 0 <= k < world.lives.len() && !world.lives[k].cancelled
                && sid == world.lives[k].sid => {
                assert(next.lives[k].worker_running);
            },
            _ => {
                assert(world.sessions.contains_key(sid));
                assert(has_owner(world, sid));
                let w = world.owners[sid];
                assert(next.lives[w].sid == sid);
                assert(holds_entry(next.lives[w]));
            },
        }
    }
    assert forall|sid: Seq<char>| #[trigger]
        next.owners.contains_key(sid) implies next.sessions.contains_key(sid) by {
        assert(world.owners.contains_key(sid) ==> world.sessions.contains_key(sid));
    }
}

/// Whatever happens, and in whatever order, behind each entry of the table the worker of its
/// session runs or the removal of the entry is pending.
pub proof fn law_every_run_keeps_order(world: World, steps: Seq<Step>)
    requires
        in_order(world),
    ensures
        in_order(run(world, steps)),
    decreases steps.len(),
{
    if steps.len() > 0 {
        law_every_step_keeps_order(world, steps[0]);
        law_every_run_keeps_order(advance(world, steps[0]), steps.drop_first());
    }
}

/// Every event of a session, the client's hanging up among them, leaves its token cancelled.
pub proof fn law_every_event_cancels(world: World, k: int, event: SessionEvent)
    requires
        0 <= k < world.lives.len(),
    ensures
        advance(world, Step::Event(k, event)).lives[k].cancelled,
{
}

/// The end of one session is its own affair, from its beginning until the server has dealt with
/// it: the server's token is not cancelled, nor the token of another session; no other worker is
/// stopped and no other stream closed; and what the table holds under other ids stays.
pub proof fn law_one_end_leaves_the_rest(
    world: World,
    k: int,
    event: SessionEvent,
    j: int,
    other: Seq<char>,
)
    requires
        0 <= k < world.lives.len(),
        0 <= j < world.lives.len(),
        j != k,
        other != world.lives[k].sid,
    ensures
        ({
            let begun = advance(world, Step::Event(k, event));
            &&& begun.shut_down == world.shut_down
            &&& begun.lives.len() == world.lives.len()
            &&& begun.lives[j] == world.lives[j]
            &&& begun.sessions == world.sessions
            &&& settled(begun, k).shut_down == world.shut_down
            &&& settled(begun, k).lives.len() == world.lives.len()
            &&& settled(begun, k).lives[j] == world.lives[j]
            &&& settled(begun, k).sessions.contains_key(other) == world.sessions.contains_key(other)
            &&& world.sessions.contains_key(other) ==> settled(begun, k).sessions[other]
                == world.sessions[other]
        }),
{
    let begun = advance(world, Step::Event(k, event));
    lemma_settled(begun, k);
}

/// Only a shutdown cancels the server's own token: as long as none is asked for, the token stays
/// as it is, whatever becomes of the sessions.
pub proof fn law_only_a_shutdown_cancels_the_server(world: World, steps: Seq<Step>)
    requires
        forall|i: int| 0 <= i < steps.len() ==> !((#[trigger] steps[i]) is ShutDown),
    ensures
        run(world, steps).shut_down == world.shut_down,
    decreases steps.len(),
{
    if steps.len() > 0 {
        let rest = steps.drop_first();
        assert(!(steps[0] is ShutDown));
        assert forall|i: int| 0 <= i < rest.len() implies !((#[trigger] rest[i]) is ShutDown) by {
            assert(rest[i] == steps[i + 1]);
        }
        law_only_a_shutdown_cancels_the_server(advance(world, steps[0]), rest);
    }
}

/// A session stays cancelled, and its worker and its stream stay down once they are.
pub proof fn law_the_end_is_final(world: World, steps: Seq<Step>, k: int)
    requires
        0 <= k < world.lives.len(),
    ensures
        k < run(world, steps).lives.len(),
        run(world, steps).lives[k].sid == world.lives[k].sid,
        world.lives[k].cancelled ==> run(world, steps).lives[k].cancelled,
        !world.lives[k].worker_running ==> !run(world, steps).lives[k].worker_running,
        !world.lives[k].stream_open ==> !run(world, steps).lives[k].stream_open,
    decreases steps.len(),
{
    if steps.len() > 0 {
        law_the_end_is_final(advance(world, steps[0]), steps.drop_first(), k);
    }
}

/// Removals take one id out of the table and touch nothing else.
proof fn lemma_removed(world: World, k: int, n: nat)
    requires
        0 <= k < world.lives.len(),
        n <= world.lives[k].removals,
    ensures
        in_order(world) ==> in_order(removed(world, k, n)),
        removed(world, k, n).shut_down == world.shut_down,
        removed(world, k, n).lives == world.lives.update(
            k,
            Life { removals: (world.lives[k].removals - n) as nat, ..world.lives[k] },
        ),
        removed(world, k, n).sessions == if n == 0 {
            world.sessions
        } else {
            world.sessions.remove(world.lives[k].sid)
        },
    decreases n,
{
    if n == 0 {
        assert(world.lives =~= world.lives.update(k, world.lives[k]));
    } else {
        let next = advance(world, Step::Remove(k));
        if in_order(world) {
            law_every_step_keeps_order(world, Step::Remove(k));
        }
        lemma_removed(next, k, (n - 1) as nat);
        assert(next.sessions.remove(world.lives[k].sid) =~= next.sessions);
        assert(removed(world, k, n).lives =~= world.lives.update(
            k,
            Life { removals: (world.lives[k].removals - n) as nat, ..world.lives[k] },
        ));
    }
}

/// Dealing with a session keeps the server in order and touches that session alone.
proof fn lemma_settled(world: World, k: int)
    ensures
        in_order(world) ==> in_order(settled(world, k)),
        settled(world, k).shut_down == world.shut_down,
        settled(world, k).lives.len() == world.lives.len(),
        forall|j: int|
            0 <= j < world.lives.len() && j != k ==> #[trigger] settled(world, k).lives[j]
                == world.lives[j],
        0 <= k < world.lives.len() ==> settled(world, k).lives[k].sid == world.lives[k].sid,
        0 <= k < world.lives.len() ==> settled(world, k).sessions == world.sessions || settled(
            world,
            k,
        ).sessions == world.sessions.remove(world.lives[k].sid),
        0 <= k < world.lives.len() && world.lives[k].cancelled ==> {
            &&& settled(world, k).lives[k].cancelled
            &&& !settled(world, k).lives[k].stream_open
            &&& !holds_entry(settled(world, k).lives[k])
        },
{
    if 0 <= k < world.lives.len() && world.lives[k].cancelled {
        let stopped = if world.lives[k].worker_running {
            advance(world, Step::Event(k, SessionEvent::WorkerExited))
        } else {
            world
        };
        let closed = if stopped.lives[k].stream_open {
            advance(stopped, Step::Event(k, SessionEvent::StreamClosed))
        } else {
            stopped
        };
        if in_order(world) {
            law_every_step_keeps_order(world, Step::Event(k, SessionEvent::WorkerExited));
            law_every_step_keeps_order(stopped, Step::Event(k, SessionEvent::StreamClosed));
        }
        lemma_removed(closed, k, closed.lives[k].removals);
    }
}

/// A cancelled session releases everything: its worker stops, its stream closes, and it leaves
/// the table. Where its id is in the table all the same, the entry leads to another session that
/// was given the same id.
pub proof fn law_a_cancelled_session_is_released(world: World, k: int)
    requires
        in_order(world),
        0 <= k < world.lives.len(),
        world.lives[k].cancelled,
    ensures
        in_order(settled(world, k)),
        !settled(world, k).lives[k].worker_running,
        !settled(world, k).lives[k].stream_open,
        settled(world, k).lives[k].removals == 0,
        !is_listed(settled(world, k), k),
{
    lemma_settled(world, k);
    let end = settled(world, k);
    if is_listed(end, k) {
        assert(end.sessions.contains_key(end.lives[k].sid));
        assert(has_owner(end, end.lives[k].sid));
    }
}

/// The server after the end of session `k` has begun with `event`, other things have happened
/// `meanwhile`, it has dealt with the session, and more has happened `later`.
pub open spec fn after_end(
    world: World,
    k: int,
    event: SessionEvent,
    meanwhile: Seq<Step>,
    later: Seq<Step>,
) -> World {
    run(settled(run(advance(world, Step::Event(k, event)), meanwhile), k), later)
}

/// Whether session `k` has its id for itself, and `steps` open none with the same id.
pub open spec fn has_own_id(world: World, k: int, steps: Seq<Step>) -> bool {
    &&& 0 <= k < world.lives.len()
    &&& forall|j: int|
        0 <= j < world.lives.len() && j != k ==> (#[trigger] world.lives[j]).sid
            != world.lives[k].sid
    &&& forall|i: int|
        0 <= i < steps.len() ==> #[trigger] steps[i] != Step::Open(world.lives[k].sid)
}

/// However the end of a session begins, be it that its client hangs up or that its service
/// returns, fails or panics, the session is gone once the server has dealt with it, and it stays
/// so, whatever else happens before and after: its token is cancelled, its worker and its stream
/// are down, and it is not in the table. Where its id is its own, the id is not in the table
/// either; else the id may lead to another session that was given the same one.
pub proof fn law_an_ended_session_is_gone(
    world: World,
    k: int,
    event: SessionEvent,
    meanwhile: Seq<Step>,
    later: Seq<Step>,
)
    requires
        in_order(world),
        0 <= k < world.lives.len(),
    ensures
        ({
            let end = after_end(world, k, event, meanwhile, later);
            let sid = world.lives[k].sid;
            &&& in_order(end)
            &&& k < end.lives.len()
            &&& end.lives[k].sid == sid
            &&& end.lives[k].cancelled
            &&& !end.lives[k].worker_running
            &&& !end.lives[k].stream_open
            &&& !is_listed(end, k)
            &&& has_own_id(world, k, meanwhile) && has_own_id(world, k, later)
                ==> !end.sessions.contains_key(sid)
        }),
{
    let begun = advance(world, Step::Event(k, event));
    law_every_step_keeps_order(world, Step::Event(k, event));
    law_every_run_keeps_order(begun, meanwhile);
    law_the_end_is_final(begun, meanwhile, k);
    let busy = run(begun, meanwhile);
    law_a_cancelled_session_is_released(busy, k);
    lemma_settled(busy, k);
    let dealt_with = settled(busy, k);
    law_the_end_is_final(dealt_with, later, k);
    law_every_run_keeps_order(dealt_with, later);
    lemma_stays_unlisted(dealt_with, k, later);
    if has_own_id(world, k, meanwhile) && has_own_id(world, k, later) {
        lemma_own_id_after_event(world, k, event, meanwhile);
        lemma_own_id_stays_own(begun, k, meanwhile);
        assert forall|j: int| 0 <= j < dealt_with.lives.len() && j != k implies (
        #[trigger] dealt_with.lives[j]).sid != world.lives[k].sid by {
            assert(dealt_with.lives[j].sid == busy.lives[j].sid);
        }
        lemma_own_id_stays_own(dealt_with, k, later);
        lemma_unlisted_id_is_out(run(dealt_with, later), k);
    }
}

/// The server after an event of session `k`, other things `meanwhile`, the removal that the event
/// asked for, and more `later`.
pub open spec fn after_removal(
    world: World,
    k: int,
    event: SessionEvent,
    meanwhile: Seq<Step>,
    later: Seq<Step>,
) -> World {
    run(
        advance(run(advance(world, Step::Event(k, event)), meanwhile), Step::Remove(k)),
        later,
    )
}

/// Once a session was taken out of the table, because its worker exited or a message could not be
/// delivered, it is never put in again, whatever else happens before and after. Where its id is
/// its own, the id is not in the table either, at any later time.
pub proof fn law_a_removed_session_stays_out(
    world: World,
    k: int,
    event: SessionEvent,
    meanwhile: Seq<Step>,
    later: Seq<Step>,
)
    requires
        in_order(world),
        0 <= k < world.lives.len(),
        reaction(event).unregister,
    ensures
        ({
            let end = after_removal(world, k, event, meanwhile, later);
            let sid = world.lives[k].sid;
            &&& in_order(end)
            &&& k < end.lives.len()
            &&& end.lives[k].sid == sid
            &&& end.lives[k].cancelled
            &&& !is_listed(end, k)
            &&& has_own_id(world, k, meanwhile) && has_own_id(world, k, later)
                ==> !end.sessions.contains_key(sid)
        }),
{
    let begun = advance(world, Step::Event(k, event));
    law_every_step_keeps_order(world, Step::Event(k, event));
    law_every_run_keeps_order(begun, meanwhile);
    law_the_end_is_final(begun, meanwhile, k);
    lemma_removal_stays_due(begun, k, meanwhile);
    let busy = run(begun, meanwhile);
    let out = advance(busy, Step::Remove(k));
    law_every_step_keeps_order(busy, Step::Remove(k));
    assert(out.lives[k].sid == world.lives[k].sid);
    assert(!is_listed(out, k));
    law_the_end_is_final(out, later, k);
    law_every_run_keeps_order(out, later);
    lemma_stays_unlisted(out, k, later);
    if has_own_id(world, k, meanwhile) && has_own_id(world, k, later) {
        lemma_own_id_after_event(world, k, event, meanwhile);
        lemma_own_id_stays_own(begun, k, meanwhile);
        assert forall|j: int| 0 <= j < out.lives.len() && j != k implies (
        #[trigger] out.lives[j]).sid != world.lives[k].sid by {
            assert(out.lives[j].sid == busy.lives[j].sid);
        }
        lemma_own_id_stays_own(out, k, later);
        lemma_unlisted_id_is_out(run(out, later), k);
    }
}

/// A cancelled session that is not in the table is not put in again.
proof fn lemma_stays_unlisted(world: World, k: int, steps: Seq<Step>)
    requires
        0 <= k < world.lives.len(),
        world.lives[k].cancelled,
        !is_listed(world, k),
    ensures
        !is_listed(run(world, steps), k),
    decreases steps.len(),
{
    if steps.len() > 0 {
        let next = advance(world, steps[0]);
        assert(next.lives[k].sid == world.lives[k].sid);
        assert(!is_listed(next, k));
        lemma_stays_unlisted(next, k, steps.drop_first());
    }
}

/// A session that is to be taken out of the table is still to be taken out, or is out, until then.
proof fn lemma_removal_stays_due(world: World, k: int, steps: Seq<Step>)
    requires
        0 <= k < world.lives.len(),
        world.lives[k].cancelled,
        world.lives[k].removals > 0 || !is_listed(world, k),
    ensures
        run(world, steps).lives[k].removals > 0 || !is_listed(run(world, steps), k),
    decreases steps.len(),
{
    if steps.len() > 0 {
        let next = advance(world, steps[0]);
        assert(next.lives[k].sid == world.lives[k].sid);
        assert(next.lives[k].removals > 0 || !is_listed(next, k));
        lemma_removal_stays_due(next, k, steps.drop_first());
    }
}

/// Where a session has its id for itself and is not in the table, nor is the id.
proof fn lemma_unlisted_id_is_out(world: World, k: int)
    requires
        in_order(world),
        0 <= k < world.lives.len(),
        forall|j: int|
            0 <= j < world.lives.len() && j != k ==> (#[trigger] world.lives[j]).sid
                != world.lives[k].sid,
        !is_listed(world, k),
    ensures
        !world.sessions.contains_key(world.lives[k].sid),
{
    if world.sessions.contains_key(world.lives[k].sid) {
        assert(has_owner(world, world.lives[k].sid));
    }
}

/// An event leaves a session its own id.
proof fn lemma_own_id_after_event(world: World, k: int, event: SessionEvent, steps: Seq<Step>)
    requires
        has_own_id(world, k, steps),
    ensures
        has_own_id(advance(world, Step::Event(k, event)), k, steps),
{
    let begun = advance(world, Step::Event(k, event));
    assert forall|j: int| 0 <= j < begun.lives.len() && j != k implies (
    #[trigger] begun.lives[j]).sid != begun.lives[k].sid by {
        assert(begun.lives[j].sid == world.lives[j].sid);
    }
}

/// A session whose id no other session has keeps it for itself while none is opened with it.
proof fn lemma_own_id_stays_own(world: World, k: int, steps: Seq<Step>)
    requires
        has_own_id(world, k, steps),
    ensures
        k < run(world, steps).lives.len(),
        run(world, steps).lives[k].sid == world.lives[k].sid,
        forall|j: int|
            0 <= j < run(world, steps).lives.len() && j != k ==> (#[trigger] run(
                world,
                steps,
            ).lives[j]).sid != world.lives[k].sid,
    decreases steps.len(),
{
    if steps.len() > 0 {
        lemma_own_id_after_step(world, k, steps);
        lemma_own_id_stays_own(advance(world, steps[0]), k, steps.drop_first());
    }
}

/// One step leaves a session its own id.
proof fn lemma_own_id_after_step(world: World, k: int, steps: Seq<Step>)
    requires
        has_own_id(world, k, steps),
        steps.len() > 0,
    ensures
        has_own_id(advance(world, steps[0]), k, steps.drop_first()),
        advance(world, steps[0]).lives[k].sid == world.lives[k].sid,
{
    let next = advance(world, steps[0]);
    let rest = steps.drop_first();
    assert(steps[0] != Step::Open(world.lives[k].sid));
    assert forall|i: int| 0 <= i < rest.len() implies #[trigger] rest[i] != Step::Open(
        next.lives[k].sid,
    ) by {
        assert(rest[i] == steps[i + 1]);
    }
    assert forall|j: int| 0 <= j < next.lives.len() && j != k implies (#[trigger] next.lives[j]).sid
        != next.lives[k].sid by {
        if j < world.lives.len() {
            assert(next.lives[j].sid == world.lives[j].sid);
        }
    }
}

/// When all workers are down and no removal is pending the table is empty.
pub proof fn law_no_workers_no_sessions(world: World)
    requires
        in_order(world),
        forall|k: int| 0 <= k < world.lives.len() ==> !holds_entry(#[trigger] world.lives[k]),
    ensures
        world.sessions == Map::<Seq<char>, SseSessionEntry>::empty(),
{
    assert forall|sid: Seq<char>| !(#[trigger] world.sessions.contains_key(sid)) by {
        if world.sessions.contains_key(sid) {
            assert(has_owner(world, sid));
        }
    }
    assert(world.sessions =~= Map::empty());
}

/// The server after it has dealt with the cancelled ones among its first `n` sessions.
pub open spec fn all_settled(world: World, n: int) -> World
    decreases n,
{
    if n <= 0 {
        world
    } else {
        settled(all_settled(world, n - 1), n - 1)
    }
}

/// Cancelling the server's own token ends every session: no worker runs on, no stream stays open,
/// and the table is empty.
pub proof fn law_shut_down_ends_every_session(world: World)
    requires
        in_order(world),
    ensures
        ({
            let end = all_settled(advance(world, Step::ShutDown), world.lives.len() as int);
            &&& end.lives.len() == world.lives.len()
            &&& forall|k: int|
                0 <= k < end.lives.len() ==> !(#[trigger] end.lives[k]).worker_running
                    && !end.lives[k].stream_open
            &&& end.sessions == Map::<Seq<char>, SseSessionEntry>::empty()
        }),
{
    let down = advance(world, Step::ShutDown);
    law_every_step_keeps_order(world, Step::ShutDown);
    lemma_all_settled(down, world.lives.len() as int);
    law_no_workers_no_sessions(all_settled(down, world.lives.len() as int));
}

/// Dealing with cancelled sessions one by one brings each of them down and leaves the others.
proof fn lemma_all_settled(world: World, n: int)
    requires
        in_order(world),
        0 <= n <= world.lives.len(),
        forall|k: int| 0 <= k < world.lives.len() ==> (#[trigger] world.lives[k]).cancelled,
    ensures
        in_order(all_settled(world, n)),
        all_settled(world, n).lives.len() == world.lives.len(),
        forall|k: int|
            0 <= k < world.lives.len() ==> (#[trigger] all_settled(world, n).lives[k]).cancelled,
        forall|k: int|
            0 <= k < n ==> !holds_entry(#[trigger] all_settled(world, n).lives[k]) && !all_settled(
                world,
                n,
            ).lives[k].stream_open,
    decreases n,
{
    if n > 0 {
        lemma_all_settled(world, n - 1);
        let earlier = all_settled(world, n - 1);
        lemma_settled(earlier, n - 1);
        let later = all_settled(world, n);
        assert forall|k: int| 0 <= k < world.lives.len() implies (
        #[trigger] later.lives[k]).cancelled by {
            assert(earlier.lives[k].cancelled);
        }
        assert forall|k: int| 0 <= k < n implies !holds_entry(#[trigger] later.lives[k])
            && !later.lives[k].stream_open by {
            if k < n - 1 {
                assert(later.lives[k] == earlier.lives[k]);
            }
        }
    }
}

/// What a client does that only looks whether the server is up: it opens a stream, the session is
/// put into the table, the client hangs up, and the server deals with that.
pub open spec fn probed(world: World, sid: Seq<char>, entry: SseSessionEntry) -> World {
    let k = world.lives.len() as int;
    let opened = advance(world, Step::Open(sid));
    let listed = advance(opened, Step::Register(k, entry));
    settled(advance(listed, Step::Event(k, SessionEvent::StreamClosed)), k)
}

/// The server after one such client after the other.
pub open spec fn probed_often(world: World, probes: Seq<(Seq<char>, SseSessionEntry)>) -> World
    decreases probes.len(),
{
    if probes.len() == 0 {
        world
    } else {
        probed_often(probed(world, probes[0].0, probes[0].1), probes.drop_first())
    }
}

/// One such client leaves the table as it was and its session down.
proof fn lemma_probed(world: World, sid: Seq<char>, entry: SseSessionEntry)
    requires
        !world.sessions.contains_key(sid),
    ensures
        probed(world, sid, entry).sessions == world.sessions,
        probed(world, sid, entry).lives.len() == world.lives.len() + 1,
        forall|j: int|
            0 <= j < world.lives.len() ==> #[trigger] probed(world, sid, entry).lives[j]
                == world.lives[j],
        !holds_entry(probed(world, sid, entry).lives[world.lives.len() as int]),
        !probed(world, sid, entry).lives[world.lives.len() as int].stream_open,
{
    let k = world.lives.len() as int;
    let opened = advance(world, Step::Open(sid));
    let listed = advance(opened, Step::Register(k, entry));
    let hung_up = advance(listed, Step::Event(k, SessionEvent::StreamClosed));
    lemma_settled(hung_up, k);
    let stopped = advance(hung_up, Step::Event(k, SessionEvent::WorkerExited));
    lemma_removed(stopped, k, stopped.lives[k].removals);
    assert(stopped.lives[k].removals == 1);
    assert(listed.sessions.remove(sid) =~= world.sessions);
    let end = probed(world, sid, entry);
    assert forall|j: int| 0 <= j < world.lives.len() implies #[trigger] end.lives[j]
        == world.lives[j] by {
        assert(end.lives[j] == hung_up.lives[j]);
    }
}

/// Clients that connect and hang up, as often as they like, leave nothing behind: the table is as
/// it was, and every session that they opened is down.
pub proof fn law_probes_do_not_accumulate(
    world: World,
    probes: Seq<(Seq<char>, SseSessionEntry)>,
)
    requires
        forall|i: int|
            0 <= i < probes.len() ==> !world.sessions.contains_key((#[trigger] probes[i]).0),
    ensures
        ({
            let end = probed_often(world, probes);
            &&& end.sessions == world.sessions
            &&& end.lives.len() == world.lives.len() + probes.len()
            &&& forall|k: int|
                0 <= k < world.lives.len() ==> #[trigger] end.lives[k] == world.lives[k]
            &&& forall|k: int|
                world.lives.len() <= k < end.lives.len() ==> !holds_entry(
                    #[trigger] end.lives[k],
                ) && !end.lives[k].stream_open
        }),
    decreases probes.len(),
{
    if probes.len() > 0 {
        let (sid, entry) = probes[0];
        let next = probed(world, sid, entry);
        assert(!world.sessions.contains_key(probes[0].0));
        lemma_probed(world, sid, entry);
        let rest = probes.drop_first();
        assert forall|i: int| 0 <= i < rest.len() implies !next.sessions.contains_key(
            (#[trigger] rest[i]).0,
        ) by {
            assert(rest[i] == probes[i + 1]);
        }
        law_probes_do_not_accumulate(next, rest);
        let end = probed_often(world, probes);
        assert forall|k: int| 0 <= k < world.lives.len() implies #[trigger] end.lives[k]
            == world.lives[k] by {
            assert(next.lives[k] == world.lives[k]);
        }
    }
}

/// Whatever ends, the token is cancelled; what finds it cancelled stops the worker and ends the
/// stream; and a session is taken out of the table once its worker is known to be gone.
pub proof fn law_each_event_has_its_reaction(event: SessionEvent)
    ensures
        reaction(event).cancel <==> event is WorkerExited || event is StreamClosed
            || event is Undeliverable,
        reaction(event).unregister <==> event is WorkerExited || event is Undeliverable,
        reaction(event).stop_worker <==> event is TokenCancelled,
        reaction(event).end_stream <==> event is TokenCancelled,
{
}

} // verus!
