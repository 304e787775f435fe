//! Settings of the server and the builder methods that change them.
use vstd::prelude::*;

use std::time::Duration;
use tokio_util::sync::CancellationToken;

use crate::host::loopback_hosts;

verus! {

/// Default capacity of the queue from a session's service to its event stream.
pub const DEFAULT_SSE_OUTBOUND_BUFFER: usize = 32;

/// Default capacity of the queue from the message endpoint to a session's service.
pub const DEFAULT_POST_INBOUND_BUFFER: usize = 32;

/// Default number of seconds between two keep-alive comments on an event stream.
pub const DEFAULT_AUTO_PING_SECONDS: u64 = 15;

/// `tokio_util::sync::CancellationToken`: a handle on a flag that is raised once and for all.
/// Verus sees nothing inside it; two handles on the same flag are one value.
#[verifier::external_type_specification]
#[verifier::external_body]
pub struct ExCancellationToken(tokio_util::sync::CancellationToken);

/// The token that a token was forked from; `None` for one that stands alone. Once the former is
/// cancelled, so is the latter.
pub uninterp spec fn forked_from(token: CancellationToken) -> Option<CancellationToken>;

/// Whether a token was cancelled when it was made. Any holder may cancel it later.
pub uninterp spec fn cancelled_at_creation(token: CancellationToken) -> bool;

/// `CancellationToken::new` makes a token that stands alone and is not cancelled at first.
pub assume_specification[ CancellationToken::new ]() -> (token: CancellationToken)
    ensures
        forked_from(token) is None,
        !cancelled_at_creation(token),
;

/// `CancellationToken::child_token` makes a token that is cancelled whenever the one it is called
/// on is, and that can be cancelled by itself. It is cancelled at once where the other one is by
/// then; that depends on the time of the call, so it is not stated.
pub assume_specification[ CancellationToken::child_token ](
    token: &CancellationToken,
) -> (child: CancellationToken)
    ensures
        forked_from(child) == Some(*token),
;

/// Cloning a `CancellationToken` gives another handle on the same flag: cancelling either one
/// cancels both.
pub assume_specification[ <CancellationToken as Clone>::clone ](
    token: &CancellationToken,
) -> (handle: CancellationToken)
    ensures
        handle == *token,
;

/// The duration that `Duration::from_secs` makes of a number of seconds.
pub uninterp spec fn seconds(secs: u64) -> Duration;

/// `Duration::from_secs` depends on the number of seconds alone.
pub assume_specification[ Duration::from_secs ](secs: u64) -> (duration: Duration)
    ensures
        duration == seconds(secs),
;

/// `String::from` copies the characters of a string slice.
pub assume_specification<'a>[ <String as From<&'a str>>::from ](s: &str) -> (owned: String)
    ensures
        owned@ == s@,
;

/// Configuration of an [`SseServer`](crate::SseServer).
#[derive(Debug)]
#[non_exhaustive]
pub struct SseServerConfig {
    /// Path of the endpoint that opens an event stream, matched as a literal: no parameters and
    /// no globs are interpreted.
    pub sse_path: String,
    /// Base path of the message endpoint. The address of one session is this path followed by
    /// `?session_id=<id>`; it is sent to the client in the first event of its stream.
    pub post_path: String,
    /// Text put before the address in that first event, for a server behind a proxy that strips
    /// or rewrites the path. With `None` the address starts with `post_path`.
    pub endpoint_prefix: Option<String>,
    /// The `Host` header values that are accepted. An empty list disables the check.
    pub allowed_hosts: Vec<String>,
    /// Time between two keep-alive comments on an event stream; `None` disables them.
    pub keep_alive: Option<Duration>,
    /// Capacity of the queue from a session's service to its event stream.
    pub sse_outbound_buffer: usize,
    /// Capacity of the queue from the message endpoint to a session's service.
    pub post_inbound_buffer: usize,
    /// Cancelling this token ends every session.
    pub cancellation_token: CancellationToken,
}

impl Default for SseServerConfig {
    fn default() -> (config: Self)
        ensures
            config.sse_path@ == "/sse"@,
            config.post_path@ == "/message"@,
            config.endpoint_prefix is None,
            config.allowed_hosts.deep_view() == loopback_hosts(),
            config.keep_alive == Some(seconds(DEFAULT_AUTO_PING_SECONDS)),
            config.sse_outbound_buffer == DEFAULT_SSE_OUTBOUND_BUFFER,
            config.post_inbound_buffer == DEFAULT_POST_INBOUND_BUFFER,
            forked_from(config.cancellation_token) is None,
            !cancelled_at_creation(config.cancellation_token),
            config.allowed_hosts@.len() == 3,
            config.allowed_hosts@[0]@ == "localhost"@,
            config.allowed_hosts@[1]@ == "127.0.0.1"@,
            config.allowed_hosts@[2]@ == "::1"@,
            config.keep_alive == Some(seconds(15)),
            config.sse_outbound_buffer == 32,
            config.post_inbound_buffer == 32,
    {
        let config = SseServerConfig {
            sse_path: String::from("/sse"),
            post_path: String::from("/message"),
            endpoint_prefix: None,
            allowed_hosts: vec![
                String::from("localhost"),
                String::from("127.0.0.1"),
                String::from("::1"),
            ],
            keep_alive: Some(Duration::from_secs(DEFAULT_AUTO_PING_SECONDS)),
            sse_outbound_buffer: DEFAULT_SSE_OUTBOUND_BUFFER,
            post_inbound_buffer: DEFAULT_POST_INBOUND_BUFFER,
            cancellation_token: CancellationToken::new(),
        };
        assert(config.allowed_hosts.deep_view() =~= loopback_hosts());
        config
    }
}

/// Whether two configurations hold the same settings and the same token.
pub open spec fn same_settings(a: SseServerConfig, b: SseServerConfig) -> bool {
    &&& a.sse_path@ == b.sse_path@
    &&& a.post_path@ == b.post_path@
    &&& match (a.endpoint_prefix, b.endpoint_prefix) {
        (Some(p), Some(q)) => p@ == q@,
        (None, None) => true,
        _ => false,
    }
    &&& a.allowed_hosts.deep_view() == b.allowed_hosts.deep_view()
    &&& a.keep_alive == b.keep_alive
    &&& a.sse_outbound_buffer == b.sse_outbound_buffer
    &&& a.post_inbound_buffer == b.post_inbound_buffer
    &&& a.cancellation_token == b.cancellation_token
}

impl Clone for SseServerConfig {
    fn clone(&self) -> (copy: Self)
        ensures
            same_settings(copy, *self),
            copy.sse_path@ == self.sse_path@,
            copy.post_path@ == self.post_path@,
            copy.endpoint_prefix is Some <==> self.endpoint_prefix is Some,
            copy.endpoint_prefix is Some ==> copy.endpoint_prefix->0@ == self.endpoint_prefix->0@,
            copy.allowed_hosts@.len() == self.allowed_hosts@.len(),
            forall|i: int|
                0 <= i < self.allowed_hosts@.len() ==> (#[trigger] copy.allowed_hosts@[i])@
                    == self.allowed_hosts@[i]@,
            copy.keep_alive == self.keep_alive,
            copy.sse_outbound_buffer == self.sse_outbound_buffer,
            copy.post_inbound_buffer == self.post_inbound_buffer,
            copy.cancellation_token == self.cancellation_token,
    {
        let mut allowed_hosts: Vec<String> = Vec::new();
        let mut i: usize = 0;
        while i < self.allowed_hosts.len()
            invariant
                i <= self.allowed_hosts@.len(),
                allowed_hosts@ == self.allowed_hosts@.take(i as int),
            decreases self.allowed_hosts@.len() - i,
        {
            allowed_hosts.push(self.allowed_hosts[i].clone());
            i = i + 1;
        }
        assert(allowed_hosts@ == self.allowed_hosts@);
        SseServerConfig {
            sse_path: self.sse_path.clone(),
            post_path: self.post_path.clone(),
            endpoint_prefix: match &self.endpoint_prefix {
                Some(prefix) => Some(prefix.clone()),
                None => None,
            },
            allowed_hosts,
            keep_alive: self.keep_alive,
            sse_outbound_buffer: self.sse_outbound_buffer,
            post_inbound_buffer: self.post_inbound_buffer,
            cancellation_token: self.cancellation_token.clone(),
        }
    }
}

impl SseServerConfig {
    /// Overrides the path of the event stream endpoint.
    pub fn with_sse_path(self, path: impl Into<String>) -> (config: Self)
        ensures
            call_ensures(Into::<String>::into, (path,), config.sse_path),
            config == (SseServerConfig { sse_path: config.sse_path, ..self }),
    {
        SseServerConfig { sse_path: path.into(), ..self }
    }

    /// Overrides the path of the message endpoint.
    pub fn with_post_path(self, path: impl Into<String>) -> (config: Self)
        ensures
            call_ensures(Into::<String>::into, (path,), config.post_path),
            config == (SseServerConfig { post_path: config.post_path, ..self }),
    {
        SseServerConfig { post_path: path.into(), ..self }
    }

    /// Sets the text put before the address in the first event of a stream.
    pub fn with_endpoint_prefix(self, prefix: impl Into<String>) -> (config: Self)
        ensures
            config.endpoint_prefix is Some,
            call_ensures(Into::<String>::into, (prefix,), config.endpoint_prefix->0),
            config == (SseServerConfig { endpoint_prefix: config.endpoint_prefix, ..self }),
    {
        SseServerConfig { endpoint_prefix: Some(prefix.into()), ..self }
    }

    /// Replaces the list of accepted `Host` header values.
    pub fn with_allowed_hosts<H: Into<String>>(self, allowed_hosts: Vec<H>) -> (config: Self)
        ensures
            config.allowed_hosts@.len() == allowed_hosts@.len(),
            forall|i: int|
                0 <= i < allowed_hosts@.len() ==> call_ensures(
                    H::into,
                    (allowed_hosts@[i],),
                    #[trigger] config.allowed_hosts@[i],
                ),
            config == (SseServerConfig { allowed_hosts: config.allowed_hosts, ..self }),
    {
        let mut list: Vec<String> = Vec::new();
        for host in it: allowed_hosts
            invariant
                it.seq() == allowed_hosts@,
                list@.len() == it.index(),
                forall|i: int|
                    0 <= i < list@.len() ==> call_ensures(
                        H::into,
                        (allowed_hosts@[i],),
                        #[trigger] list@[i],
                    ),
        {
            list.push(host.into());
        }
        SseServerConfig { allowed_hosts: list, ..self }
    }

    /// Disables the check of the `Host` header.
    ///
    /// **Warning**: every `Host` value is then accepted, also one that an attacker chose. Use it
    /// in tests, or where another layer in front of the server ends the trust boundary.
    pub fn disable_allowed_hosts(self) -> (config: Self)
        ensures
            config.allowed_hosts@.len() == 0,
            config == (SseServerConfig { allowed_hosts: config.allowed_hosts, ..self }),
    {
        SseServerConfig { allowed_hosts: Vec::new(), ..self }
    }

    /// Overrides the time between two keep-alive comments.
    pub fn with_keep_alive(self, interval: Option<Duration>) -> (config: Self)
        ensures
            config == (SseServerConfig { keep_alive: interval, ..self }),
    {
        SseServerConfig { keep_alive: interval, ..self }
    }

    /// Overrides the capacity of the queue from a session's service to its event stream.
    pub fn with_sse_outbound_buffer(self, capacity: usize) -> (config: Self)
        ensures
            config == (SseServerConfig { sse_outbound_buffer: capacity, ..self }),
    {
        SseServerConfig { sse_outbound_buffer: capacity, ..self }
    }

    /// Overrides the capacity of the queue from the message endpoint to a session's service.
    pub fn with_post_inbound_buffer(self, capacity: usize) -> (config: Self)
        ensures
            config == (SseServerConfig { post_inbound_buffer: capacity, ..self }),
    {
        SseServerConfig { post_inbound_buffer: capacity, ..self }
    }

    /// Overrides the cancellation token. Each session gets a child of it, so that cancelling it
    /// ends every session.
    pub fn with_cancellation_token(self, token: CancellationToken) -> (config: Self)
        ensures
            config == (SseServerConfig { cancellation_token: token, ..self }),
    {
        SseServerConfig { cancellation_token: token, ..self }
    }
}

/// Configurations with the same settings hold the same in every one of them.
pub proof fn law_same_settings_leave_none_out(a: SseServerConfig, b: SseServerConfig)
    requires
        same_settings(a, b),
    ensures
        a.sse_path@ == b.sse_path@,
        a.post_path@ == b.post_path@,
        a.endpoint_prefix is Some <==> b.endpoint_prefix is Some,
        a.endpoint_prefix is Some ==> a.endpoint_prefix->0@ == b.endpoint_prefix->0@,
        a.allowed_hosts@.len() == b.allowed_hosts@.len(),
        forall|i: int|
            0 <= i < a.allowed_hosts@.len() ==> (#[trigger] a.allowed_hosts@[i])@
                == b.allowed_hosts@[i]@,
        a.keep_alive == b.keep_alive,
        a.sse_outbound_buffer == b.sse_outbound_buffer,
        a.post_inbound_buffer == b.post_inbound_buffer,
        a.cancellation_token == b.cancellation_token,
{
    assert(a.allowed_hosts.deep_view().len() == b.allowed_hosts.deep_view().len());
    assert forall|i: int| 0 <= i < a.allowed_hosts@.len() implies (
    #[trigger] a.allowed_hosts@[i])@ == b.allowed_hosts@[i]@ by {
        assert(a.allowed_hosts.deep_view()[i] == a.allowed_hosts@[i]@);
        assert(b.allowed_hosts.deep_view()[i] == b.allowed_hosts@[i]@);
    }
}

} // verus!
