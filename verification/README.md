# concord

A chat server reached over Tor: servers with channels, members and invites,
kept in an LMDB store; a binary event protocol spoken over websockets; long-poll
listeners that are handed events as they are posted, including events from
servers hosted elsewhere.

The library in `src/` is written in Verus. Its functions carry `requires` /
`ensures` contracts that are proved; the outside crates it calls (LMDB,
base64, base58, percent-encoding, URL parsing, query strings, ed25519, the
clock and random numbers) are reached through small trusted items whose doc
comments say what is assumed of them.

## Layout

- `src/ser.rs`, `src/types.rs`, `src/protocol.rs`, `src/event.rs`: the wire
  format, with proofs that what is written reads back.
- `src/store.rs`, `src/db.rs`, `src/kv.rs`, `src/ds.rs`: the records of the
  store, the operations on them inside one transaction (`Batch`), and the
  store-level calls (`DSContext`), each stated over the records a
  transaction sees.
- `src/auth.rs`: sessions, challenges and sign-in.
- `src/context.rs`, `src/persistence.rs`: listeners, their interests, the
  events queued for them, and the interest lists sent to other servers.
- `src/handlers.rs`, `src/net.rs`, `src/webroot.rs`, `src/config.rs`: the
  decisions behind the request handlers, URLs and HTTP headers, the files
  served, and the settings.
- `tests/`: tests of the library on concrete values.
- `app/`: the program around the library: the HTTP and websocket endpoints,
  threads, files and network, which the library does not verify.
