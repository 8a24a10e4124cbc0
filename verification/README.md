# lightarchitects-webshell

The web shell of the Light Architects platform: an HTTP server that drives
coding agents in a browser — git and code routes, sandboxed command runs,
operator questions and HITL approvals, multi-build programs, fleet and squad
streams, a LiteLLM chat proxy, agent hot-swap in the PTY, and the platform's
health overviews.

## Layout

- `src/` — the library, verified with Verus. It holds the logic of every
  route: request validation, the parsers of `git` output, path and
  argument screening, rate limiters and nonce book, the program run as a state
  machine, the reasoning-tag splitter of chat streams, the scoring behind the
  mosaic, pulse and suggestions, and the build-session model. Each public
  function states its result in its contract; properties that span calls
  stand as proof functions.
- `tests/` — tests of the library on concrete values.
- `app/` — the server around the library: axum router and middleware, the
  handlers that read requests, run processes, touch files and the network,
  and the SQLite session store. The embedding binary may supply a plan
  decomposer, a loop-strategy runner and a wave runner (`AppState::with_*`);
  routes that need one answer 503 without it.

## Shared tables

The registry of live builds and the per-address SSE limiter keep their
entries in a `dashmap::DashMap`, as the server shares them between
connections. The library declares the map type and reaches it through small
trusted wrappers (`src/session.rs`, `src/sse_rate_limit.rs`), each stating
what the call does to the map's contents; the wrappers take the map by
`&mut`, so the contracts can relate the contents before and after a call,
and the server serialises access behind a lock.
