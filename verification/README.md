# imposter

The rules and the game service of an Imposter party game, verified with
Verus, and a JSON-over-WebSocket server around them.

## Layout

- `src/` — the verified library.
  - `model.rs`, `commands.rs`, `errors.rs`: room state, commands, events and
    errors, each with a mathematical view.
  - `rules.rs`: what every command does to a room, as spec functions.
  - `transitions.rs`: `apply` and its helpers, proved against `rules.rs`.
  - `invariants.rs`, `laws.rs`: the room invariant every command keeps, and
    the properties that span several commands or calls.
  - `role.rs`, `topics.rs`, `rng.rs`, `text.rs`: role cards, the topic
    catalog, the random choices of a round, and text helpers (trimming,
    ASCII case, UTF-8 lengths, decimal ids).
  - `store.rs`, `service.rs`, `types.rs`: the room store and the game
    service (sessions, authorization, chat, listing), with contracts over
    the whole store.
  - `protocol.rs`, `request.rs`: protocol errors, sessions, the operation
    table and the dispatch of one request to the service.
  - `platform.rs`: the calls into `uuid`, `sha2`, `chrono` and `tokio`.
- `app/` — the server: routes, the socket loop, JSON encoding and decoding,
  and the forwarding of broadcast channels.
- `tests/` — tests of the library.
