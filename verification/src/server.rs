//! The server: what it answers to a request, and what it sets up for a new session.
use vstd::prelude::*;
use vstd::string::*;

use http::HeaderMap;
use std::sync::Arc;
use std::time::Duration;
use tokio::sync::mpsc::Receiver;
use tokio::sync::mpsc::Sender;
use tokio::sync::RwLock;

use crate::config::{forked_from, same_settings, SseServerConfig};
use crate::endpoint::{announced, endpoint_payload, extract_session_id, is_random_uuid};
use crate::endpoint::{law_session_query_is_read_back, prefix_text, session_id, session_id_in};
use crate::endpoint::{law_address_is_made_of_its_parts, law_announced_address_names_its_session};
use crate::endpoint::{session_query, SessionId};
use crate::host::{header_fields, headers_are_allowed, host_text, plain_verdict, text_allowed};
use crate::host::text_of;
use crate::message::{ClientJsonRpcMessage, ServerJsonRpcMessage};
use crate::reply::{forbidden_host, forbidden_host_reply, missing_session_id};
use crate::reply::{missing_session_id_reply, not_found, not_found_reply, service_failed};
use crate::reply::{service_failed_reply, stream_head, stream_headers, Reply, ReplyView, StreamHead};
use crate::sessions::{ids_at_creation, is_queue_capacity, lock_sessions, queue, queue_capacity};
use crate::sessions::{queue_sender, share, SessionMap, SseSessionEntry};
use crate::stream::{all_events, law_first_event_is_the_whole_address, EventStream, Outbound, Phase};
use crate::text::{after, before, occurs, same_text};

verus! {

/// `std::io::Error`: why a service could not be made. Verus sees nothing inside it.
#[verifier::external_type_specification]
#[verifier::external_body]
pub struct ExIoError(std::io::Error);

/// What the server is to do about a request.
#[derive(Debug)]
pub enum Route {
    /// Open an event stream for a new session.
    OpenStream,
    /// Hand the body to this session.
    Post(SessionId),
    /// Reply at once.
    Respond(Reply),
}

/// What the server is to do about a request, as plain values.
pub enum RouteView {
    /// Open an event stream.
    OpenStream,
    /// Hand the body to this session.
    Post(Seq<char>),
    /// Reply at once.
    Respond(ReplyView),
}

impl View for Route {
    type V = RouteView;

    open spec fn view(&self) -> RouteView {
        match *self {
            Route::OpenStream => RouteView::OpenStream,
            Route::Post(sid) => RouteView::Post(sid@),
            Route::Respond(reply) => RouteView::Respond(reply@),
        }
    }
}

/// What the server does about a request whose `Host` header was found good or not.
pub open spec fn routed(
    sse_path: Seq<char>,
    post_path: Seq<char>,
    method: Seq<char>,
    path: Seq<char>,
    query: Option<Seq<char>>,
    host_allowed: bool,
) -> RouteView {
    if !host_allowed {
        RouteView::Respond(forbidden_host())
    } else if method == "GET"@ && path == sse_path {
        RouteView::OpenStream
    } else if method == "POST"@ && path == post_path {
        match query {
            Some(q) => match session_id_in(q) {
                Some(sid) => RouteView::Post(sid),
                None => RouteView::Respond(missing_session_id()),
            },
            None => RouteView::Respond(missing_session_id()),
        }
    } else {
        RouteView::Respond(not_found())
    }
}

/// Decides what to do about a request, from its method, its path, its query and whether its
/// `Host` header was found good.
pub fn route_request(
    config: &SseServerConfig,
    method: &str,
    path: &str,
    query: Option<&str>,
    host_allowed: bool,
) -> (route: Route)
    ensures
        route@ == routed(
            config.sse_path@,
            config.post_path@,
            method@,
            path@,
            text_of(query),
            host_allowed,
        ),
        !host_allowed ==> {
            &&& route matches Route::Respond(reply)
            &&& reply.status == 403
            &&& reply.body@ == "Forbidden Host"@
        },
        route is OpenStream <==> host_allowed && method@ == "GET"@ && path@ == config.sse_path@,
        route matches Route::Post(sid) ==> {
            &&& host_allowed
            &&& method@ == "POST"@
            &&& path@ == config.post_path@
            &&& query matches Some(q)
            &&& session_id_in(q@) == Some(sid@)
        },
        host_allowed && method@ == "POST"@ && path@ == config.post_path@ ==> match query {
            Some(q) => session_id_in(q@) is Some ==> route is Post,
            None => true,
        },
        host_allowed && method@ == "POST"@ && path@ == config.post_path@ && !(route is Post) ==> {
            &&& route matches Route::Respond(reply)
            &&& reply.status == 400
            &&& reply.body@ == "missing session_id"@
        },
        host_allowed && !(method@ == "GET"@ && path@ == config.sse_path@) && !(method@ == "POST"@
            && path@ == config.post_path@) ==> {
            &&& route matches Route::Respond(reply)
            &&& reply.status == 404
            &&& reply.body@ == "Not Found"@
        },
{
    proof {
        reveal_strlit("GET");
        reveal_strlit("POST");
        assert("GET"@.len() != "POST"@.len());
    }
    if !host_allowed {
        return Route::Respond(forbidden_host_reply());
    }
    if same_text(method, "GET") && same_text(path, config.sse_path.as_str()) {
        return Route::OpenStream;
    }
    if same_text(method, "POST") && same_text(path, config.post_path.as_str()) {
        return match extract_session_id(query) {
            Some(sid) => Route::Post(sid),
            None => Route::Respond(missing_session_id_reply()),
        };
    }
    Route::Respond(not_found_reply())
}

/// All that a new session is made of.
pub struct NewSession<S> {
    /// The id of the session.
    pub session_id: SessionId,
    /// The service that its worker is to run.
    pub service: S,
    /// What is to be put into the table of sessions: the queue into the service, and the token of
    /// the session.
    pub entry: SseSessionEntry,
    /// Where the service gets the messages of the client from.
    pub inbound: Receiver<ClientJsonRpcMessage>,
    /// Where the service puts its own messages.
    pub outbound: Sender<ServerJsonRpcMessage>,
    /// Where the event stream gets them from.
    pub messages: Receiver<ServerJsonRpcMessage>,
    /// The event stream, with nothing sent.
    pub stream: EventStream,
    /// Time between two keep-alive comments on the stream.
    pub keep_alive: Option<Duration>,
    /// Status and headers of the reply.
    pub head: StreamHead,
}

/// Whether a session is set up as a configuration asks: its token ends with that of the server,
/// messages of the table's entry reach the service and those of the service reach the stream,
/// through queues of the configured capacities, and the stream is to announce the address of
/// the session.
pub open spec fn is_set_up<S>(session: NewSession<S>, config: SseServerConfig) -> bool {
    &&& forked_from(session.entry.cancel) == Some(config.cancellation_token)
    &&& queue_sender(session.inbound) == session.entry.inbound
    &&& queue_capacity(session.entry.inbound) == config.post_inbound_buffer
    &&& queue_sender(session.messages) == session.outbound
    &&& queue_capacity(session.outbound) == config.sse_outbound_buffer
    &&& session.stream.payload() == announced(
        prefix_text(config.endpoint_prefix),
        config.post_path@,
        session.session_id@,
    )
    &&& session.stream.phase() == Phase::Start
    &&& session.keep_alive == config.keep_alive
    &&& session.head.status == 200
    &&& session.head.header_texts() == stream_headers()
}

/// Sets up a session with a given id and service.
pub fn set_up_session<S>(config: &SseServerConfig, sid: SessionId, service: S) -> (session:
    NewSession<S>)
    requires
        is_queue_capacity(config.post_inbound_buffer),
        is_queue_capacity(config.sse_outbound_buffer),
    ensures
        session.session_id == sid,
        session.service == service,
        is_set_up(session, *config),
        queue_capacity(session.entry.inbound) == config.post_inbound_buffer,
        queue_capacity(session.outbound) == config.sse_outbound_buffer,
        session.keep_alive == config.keep_alive,
        config.endpoint_prefix is None ==> session.stream.payload() == config.post_path@
            + "?session_id="@ + sid@,
        config.endpoint_prefix matches Some(prefix) ==> session.stream.payload() == prefix@
            + config.post_path@ + "?session_id="@ + sid@,
        session.head.status == 200,
        session.head.headers@.len() == 3,
        session.head.headers@[0].0@ == "content-type"@,
        session.head.headers@[0].1@ == "text/event-stream; charset=utf-8"@,
        session.head.headers@[1].0@ == "cache-control"@,
        session.head.headers@[1].1@ == "no-store"@,
        session.head.headers@[2].0@ == "x-accel-buffering"@,
        session.head.headers@[2].1@ == "no"@,
{
    let cancel = config.cancellation_token.child_token();
    let (to_service, inbound) = queue(config.post_inbound_buffer);
    let (outbound, messages) = queue(config.sse_outbound_buffer);
    let payload = endpoint_payload(config, &sid);
    NewSession {
        session_id: sid,
        service,
        entry: SseSessionEntry { inbound: to_service, cancel },
        inbound,
        outbound,
        messages,
        stream: EventStream::new(payload),
        keep_alive: config.keep_alive,
        head: stream_head(),
    }
}

/// A server of event streams. Each stream belongs to a session with a service of its own, which
/// `service_factory` makes; clones of a server share their sessions.
#[non_exhaustive]
pub struct SseServer<F> {
    /// The settings.
    pub config: SseServerConfig,
    /// Makes the service of a new session.
    pub service_factory: Arc<F>,
    /// The sessions that a message can be posted to.
    pub sessions: Arc<RwLock<SessionMap>>,
}

impl<F> Clone for SseServer<F> {
    fn clone(&self) -> (server: Self)
        ensures
            same_settings(server.config, self.config),
            server.service_factory == self.service_factory,
            server.sessions == self.sessions,
    {
        SseServer {
            config: self.config.clone(),
            service_factory: share(&self.service_factory),
            sessions: share(&self.sessions),
        }
    }
}

impl<S, F> SseServer<F> where F: Fn() -> Result<S, std::io::Error> {
    /// A server without sessions.
    pub fn new(service_factory: F, config: SseServerConfig) -> (server: Self)
        ensures
            server.config == config,
            *server.service_factory == service_factory,
            ids_at_creation(*server.sessions) == Set::<Seq<char>>::empty(),
    {
        let server = SseServer {
            config,
            service_factory: Arc::new(service_factory),
            sessions: Arc::new(lock_sessions(SessionMap::new())),
        };
        assert(ids_at_creation(*server.sessions) =~= Set::<Seq<char>>::empty());
        server
    }

    /// Whether the `Host` header of a request is one that the configuration accepts.
    pub fn host_is_allowed(&self, headers: &HeaderMap) -> (allowed: bool)
        ensures
            allowed == text_allowed(
                host_text(header_fields(*headers)),
                self.config.allowed_hosts.deep_view(),
            ),
            plain_verdict(
                host_text(header_fields(*headers)),
                self.config.allowed_hosts.deep_view(),
            ) matches Some(verdict) ==> allowed == verdict,
    {
        headers_are_allowed(headers, &self.config.allowed_hosts)
    }

    /// Decides what to do about a request.
    pub fn call(&self, method: &str, path: &str, query: Option<&str>, headers: &HeaderMap) -> (route:
        Route)
        ensures
            route@ == routed(
                self.config.sse_path@,
                self.config.post_path@,
                method@,
                path@,
                text_of(query),
                text_allowed(
                    host_text(header_fields(*headers)),
                    self.config.allowed_hosts.deep_view(),
                ),
            ),
            plain_verdict(
                host_text(header_fields(*headers)),
                self.config.allowed_hosts.deep_view(),
            ) matches Some(verdict) ==> route@ == routed(
                self.config.sse_path@,
                self.config.post_path@,
                method@,
                path@,
                text_of(query),
                verdict,
            ),
    {
        let host_allowed = self.host_is_allowed(headers);
        route_request(&self.config, method, path, query, host_allowed)
    }

    /// Makes the service of a new session and sets the session up, under a fresh id. Where the
    /// service cannot be made, gives the reply that says so.
    pub fn handle_get(&self) -> (session: Result<NewSession<S>, Reply>)
        requires
            call_requires(*self.service_factory, ()),
            is_queue_capacity(self.config.post_inbound_buffer),
            is_queue_capacity(self.config.sse_outbound_buffer),
        ensures
            session matches Ok(s) ==> {
                &&& is_random_uuid(s.session_id@)
                &&& call_ensures(
                    *self.service_factory,
                    (),
                    Ok::<S, std::io::Error>(s.service),
                )
                &&& is_set_up(s, self.config)
            },
            session matches Err(reply) ==> exists|error: std::io::Error, text: String|
                {
                    &&& #[trigger] to_string_from_display_ensures(&error, text)
                    &&& call_ensures(*self.service_factory, (), Err::<S, std::io::Error>(error))
                    &&& reply@ == service_failed(text@)
                },
    {
        let sid = session_id();
        match (*self.service_factory)() {
            Ok(service) => Ok(set_up_session(&self.config, sid, service)),
            Err(error) => {
                let text = error.to_string();
                let reply = service_failed_reply(text.as_str());
                assert(to_string_from_display_ensures(&error, text));
                Err(reply)
            },
        }
    }
}

/// A request whose `Host` header is not accepted is refused with 403, whatever it asks for.
pub proof fn law_foreign_host_is_refused(
    sse_path: Seq<char>,
    post_path: Seq<char>,
    method: Seq<char>,
    path: Seq<char>,
    query: Option<Seq<char>>,
)
    ensures
        routed(sse_path, post_path, method, path, query, false) == RouteView::Respond(
            forbidden_host(),
        ),
{
}

/// A stream is opened, and a message is routed, only for a request whose `Host` header is
/// accepted, by the right method on the right path; all else is answered at once.
pub proof fn law_only_the_two_endpoints_are_served(
    sse_path: Seq<char>,
    post_path: Seq<char>,
    method: Seq<char>,
    path: Seq<char>,
    query: Option<Seq<char>>,
    host_allowed: bool,
)
    ensures
        ({
            let route = routed(sse_path, post_path, method, path, query, host_allowed);
            &&& route is OpenStream <==> host_allowed && method == "GET"@ && path == sse_path
            &&& route is Post <==> host_allowed && method == "POST"@ && path == post_path
                && query is Some && session_id_in(query->0) is Some
        }),
{
    reveal_strlit("GET");
    reveal_strlit("POST");
    assert("GET"@.len() != "POST"@.len());
}

/// A message posted to the message path, with the query of the address that was announced for a
/// session, is routed to that session. This asks of the id that it holds no `&`, as no id of a
/// session does, and that the `Host` header is accepted.
pub proof fn law_announced_address_is_routed_to_its_session(
    sse_path: Seq<char>,
    post_path: Seq<char>,
    sid: Seq<char>,
)
    requires
        !occurs(sid, '&'),
    ensures
        routed(sse_path, post_path, "POST"@, post_path, Some(session_query(sid)), true)
            == RouteView::Post(sid),
{
    reveal_strlit("GET");
    reveal_strlit("POST");
    assert("GET"@.len() != "POST"@.len());
    law_session_query_is_read_back(sid);
}

/// Each request has one answer, whatever its parts: 403 for a `Host` that is not accepted; a stream
/// for a `GET` of the stream path; for a `POST` to the message path, the session that the query
/// names, and 400 where it names none; and 404 for all else.
pub proof fn law_each_request_has_its_answer(
    sse_path: Seq<char>,
    post_path: Seq<char>,
    method: Seq<char>,
    path: Seq<char>,
    query: Option<Seq<char>>,
    host_allowed: bool,
)
    ensures
        ({
            let route = routed(sse_path, post_path, method, path, query, host_allowed);
            let get = method == "GET"@ && path == sse_path;
            let post = method == "POST"@ && path == post_path;
            let named = query is Some && session_id_in(query->0) is Some;
            &&& !host_allowed ==> route is Respond && route->Respond_0.status == 403
                && route->Respond_0.body == "Forbidden Host"@
            &&& host_allowed && get ==> route is OpenStream
            &&& host_allowed && post && named ==> route == RouteView::Post(
                session_id_in(query->0)->0,
            )
            &&& host_allowed && post && !named ==> route is Respond && route->Respond_0.status
                == 400 && route->Respond_0.body == "missing session_id"@
            &&& host_allowed && !get && !post ==> route is Respond && route->Respond_0.status == 404
                && route->Respond_0.body == "Not Found"@
        }),
{
    reveal_strlit("GET");
    reveal_strlit("POST");
    assert("GET"@.len() != "POST"@.len());
}

/// A session that is set up is so in every respect that the configuration has a say in.
pub proof fn law_a_session_is_set_up_as_configured<S>(
    session: NewSession<S>,
    config: SseServerConfig,
)
    requires
        is_set_up(session, config),
    ensures
        forked_from(session.entry.cancel) == Some(config.cancellation_token),
        queue_sender(session.inbound) == session.entry.inbound,
        queue_sender(session.messages) == session.outbound,
        queue_capacity(session.entry.inbound) == config.post_inbound_buffer,
        queue_capacity(session.outbound) == config.sse_outbound_buffer,
        config.endpoint_prefix is None ==> session.stream.payload() == config.post_path@
            + "?session_id="@ + session.session_id@,
        config.endpoint_prefix is Some ==> session.stream.payload() == config.endpoint_prefix->0@
            + config.post_path@ + "?session_id="@ + session.session_id@,
        session.stream.phase() == Phase::Start,
        session.keep_alive == config.keep_alive,
        session.head.status == 200,
{
    let prefix = prefix_text(config.endpoint_prefix);
    law_address_is_made_of_its_parts(prefix, config.post_path@, session.session_id@);
    assert(Seq::<char>::empty() + config.post_path@ =~= config.post_path@);
}

/// The first event of the stream of a session carries the address of that session and of no other:
/// the id that is read out of the data that is sent is that of the session. This asks that the
/// configured paths hold no `?` and the id no `&`, as no id of a session does.
pub proof fn law_first_event_leads_to_its_session<S>(
    session: NewSession<S>,
    config: SseServerConfig,
    inputs: Seq<Outbound>,
)
    requires
        is_set_up(session, config),
        !occurs(prefix_text(config.endpoint_prefix) + config.post_path@, '?'),
        !occurs(session.session_id@, '&'),
    ensures
        ({
            let sent = all_events(session.stream.payload(), false, inputs)[0];
            &&& sent.event == "endpoint"@
            &&& occurs(sent.data, '?')
            &&& before(sent.data, '?') == prefix_text(config.endpoint_prefix) + config.post_path@
            &&& session_id_in(after(sent.data, '?')) == Some(session.session_id@)
        }),
{
    law_first_event_is_the_whole_address(session.stream.payload(), inputs);
    law_announced_address_names_its_session(
        prefix_text(config.endpoint_prefix),
        config.post_path@,
        session.session_id@,
    );
}

/// What is to be done about a request is told with the whole id or reply that it is about.
pub proof fn law_a_route_is_told_in_full(route: Route)
    ensures
        route is OpenStream ==> route@ == RouteView::OpenStream,
        route is Post ==> route@ == RouteView::Post(route->Post_0@),
        route is Respond ==> route@ == RouteView::Respond(route->Respond_0@),
{
}

} // verus!
