# qqbot

The decision logic of a QQ Bot (official QQ v2 API) platform adapter,
verified with Verus, and the network runtime around it.

- `src/` — the verified library.
  - `adapter.rs`: adapter state, construction and config checks, the
    access-token cache, group-chat detection, message sequence numbers,
    reconnect backoff.
  - `gateway.rs`: gateway payloads, inbound message routing, identify/resume.
  - `outbound.rs`: endpoints, message bodies, attachment captions, per-chat
    housekeeping and pruning.
  - `stream.rs`: native C2C streaming (chunk planning, markdown fallback,
    stream state).
  - `progress.rs`: progress cards (deduplication, per-turn limit).
  - `notice.rs`: stream-end notices (rate limiting, notice text).
  - `footer.rs`: the metadata footer.
  - `chat_map.rs`: the per-chat map with distinct keys.
  - `text.rs`: character-level string helpers with their specifications.
  - `laws.rs`: properties spanning several operations.
- `tests/` — tests of the library on concrete values.
- `app/` — HTTP, websocket, locking, timers and JSON conversion, delegating
  every decision to the library.
