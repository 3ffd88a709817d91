# spume

Core of a Solana JSON-RPC client for WebAssembly, verified with Verus.

`src/` is the verified library:

- `json` — the JSON document model the protocol logic reads, member lookup,
  and the trusted wrapper around `serde_json`'s parser.
- `rpc` — the JSON-RPC 2.0 envelope: method names, request framing, the
  framing of positional parameters, and the `error` member of a response.
- `provider` — the HTTP endpoint's settings and request ids (`HttpProvider`),
  and the reading of an HTTP response (size cap, status, `error`, `result`).
- `pubsub` — the PubSub dispatcher: pending requests, live subscriptions,
  where each incoming frame goes, unsubscribe and close.
- `channel` — the kinds of subscription and their method names.
- `error` — the client's errors and the reading of a JSON-RPC error object.
- `text` — decimal rendering and the error messages built from it.

`app/` is the network side: `fetch` with timeout and abort, the WebSocket
reader and writer tasks, the typed serde (de)serialization of Solana request
and response types, and the async RPC and subscription methods.
