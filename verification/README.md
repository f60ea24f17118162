# codex_control_plane

A local control plane for interactive Codex sessions, verified with Verus.

A local process can ask an instance for its status, its current session and
turn, and can steer the active turn with text. A channel relay turns messages
posted to server-side channels into such steering.

## Layout

- `src/` — the verified library.
  - `protocol.rs`: requests, responses and payloads; socket naming.
  - `state.rs`: the session/turn state, the ordered steering checks and the
    idempotency reservations; steering is two steps around the delegate call.
  - `relay.rs`: the steering-message template, quoting of channel messages,
    receipts, and the relay's reconnect policy.
  - `server_url.rs`: the channel server's endpoints (through the `url` crate)
    and the errors for its HTTP statuses.
  - `headers.rs`: configured HTTP headers (through `reqwest`'s header types).
  - `setup.rs`, `prompts.rs`: consent and setup decisions, channel names and
    selection, and the prompts (the channel picker with what it sends) as
    plain values.
  - `text.rs`: character-level string operations with their specifications.
  - `laws.rs`: properties that span several operations.
- `app/` — the I/O around the library: the Unix socket server, the async
  steering delegate, JSON on the wire, the HTTP client and the websocket loop
  of the relay.
- `tests/` — tests of the library.
