# ws_mock

The core of a WebSocket mock tool (a built-in mock server and mock client),
written in Verus and verified.

- `src/text.rs` — trimming, prefix tests, replace-all, decimal notation and the
  code-point order of texts, each against a `Seq<char>` specification.
- `src/json.rs` — JSON string escaping as `serde_json` writes it, and JSON
  checks through `serde_json`'s parser.
- `src/template.rs` — response templates with the placeholders `{{message}}`,
  `{{jsonMessage}}`, `{{peerId}}`, `{{requestId}}` and `{{timestamp}}`.
- `src/config.rs` — normalizing the server configuration and the client's
  address; the server's endpoint.
- `src/events.rs` — event records and what each kind of happening is recorded as.
- `src/runtime.rs` — the runtime state (server, connections, client, bounded
  event stream) and what each command does to it.
- `src/peer.rs` — what a server connection and the client's reader do with each
  input.
- `src/stamp.rs` — fresh identifiers and the current time.
- `app/` — the Tauri commands, sockets and tasks that perform what the library
  decides.
