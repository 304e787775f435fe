//! Server side of the HTTP transport that pairs an event stream with a message endpoint, as the
//! Model Context Protocol of 2024-11-05 has it.
//!
//! 1. A client opens an event stream (`GET /sse` by default). The server sets up a session for it,
//!    with a service of its own.
//! 2. The first event of the stream, `endpoint`, carries the address that this client is to post
//!    its messages to, such as `/message?session_id=<uuid>`.
//! 3. The client posts its messages there. Each one is handed to the service of its session and
//!    answered with `202 Accepted`.
//! 4. What the service has to say, in answer or of its own accord, is sent on the stream as
//!    `message` events.
//!
//! This crate decides: which requests are served ([`server`], [`host`], [`endpoint`]), what a
//! stream sends ([`stream`]), what is a message and how it is answered ([`message`], [`post`]), and
//! what is done when a session ends, so that none is left behind ([`lifecycle`]). That messages and
//! replies reach those they are for is shown in [`mail`]. Reading requests, waiting, running the
//! services and writing replies are up to its users.
pub mod config;
pub mod endpoint;
pub mod host;
pub mod lifecycle;
pub mod mail;
pub mod message;
pub mod post;
pub mod reply;
pub mod server;
pub mod sessions;
pub mod stream;
pub mod text;

pub use config::SseServerConfig;
pub use endpoint::{endpoint_payload, extract_session_id, session_id, SessionId};
pub use server::SseServer;
