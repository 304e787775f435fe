# sse_server

Server side of the HTTP transport that pairs an event stream with a message
endpoint (Model Context Protocol, 2024-11-05), verified with Verus.

- `src/` is the library: configuration, the check of the `Host` header, routing,
  session ids and the announced address, the table of sessions, messages and the
  exchange that answers them, the event stream, and what is done when a session
  ends. Every function has a contract; the `law_` functions state what holds of
  the library as a whole, among them that messages and replies stay with their
  session and in order, that a full queue holds a message up and loses none, and
  that a session whose client hangs up leaves nothing behind.
- `app/` is the tower service around it: it reads requests, runs workers and
  streams, and writes replies.
- `tests/` runs the library on concrete values.

Outside crates are called through a few trusted items, each with a contract that
is believed and a comment that says what it claims: `http` (header fields and
authorities), `tokio` (queues and the lock of the table), `tokio-util`
(cancellation tokens), `serde_json` (JSON values and their text) and `uuid`
(session ids).
