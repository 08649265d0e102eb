# rexisce

The protocol core of an XMPP client, written in Verus: the stanzas it
builds and reads, the state of each protocol extension, and what the
session engine does with each stanza from the server and each command from
the user interface. Every function in `src/` carries a contract that Verus
proves; calls into outside crates (base64, sha1, uuid, jid parsing,
AES-GCM, the Olm sessions of vodozemac, the clock) stand behind small
trusted wrappers whose contracts state what those crates document.

Layout:

- `src/util/` — strings, maps and sets keyed by text, the XML element model
  and its text form, and the codec wrappers.
- `src/xmpp/modules/` — one module per extension (stream management, MAM,
  MUC, OMEMO, push, registration, blocking, bookmarks, vCards, …).
- `src/xmpp/handlers/` — the engine's decisions: routing received stanzas,
  commands, outgoing bookkeeping and the OMEMO steps between the key store's
  loads and saves.
- `src/xmpp/connection/` — the server field, SASL choice and the proxy
  lifecycle.
- `src/xmpp/multi_engine.rs` — which accounts have an engine and which
  account is in focus.
- `tests/` — the tests, run against the compiled library.
- `app/` — what runs around the library: the engines' command channels, the
  outbound rate limiter and user location, whose values are floating point.
