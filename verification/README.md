# pgdog

The decisions of a connection pooler and load balancer for PostgreSQL, with contracts that Verus
proves: which connection a client gets, which connections are kept, which server a query goes to,
what is wrong with a configuration, and which statements copy a table from one cluster to another.

## Layout

- `src/config/`: settings, what is derived from them, and the checks on them.
- `src/server/`: one connection to a server, from the handshake to the last message.
- `src/pool/`: pools of connections, load balancing over the servers of a shard, clusters of
  shards, and the connections that a client holds.
- `src/replication/`: tables of a publication, the statements that apply their changes, the steps
  of a copy, and what is shown of copies under way.
- `src/net.rs`, `src/numbers.rs`, `src/text.rs`, `src/time.rs`: values that the rest works on.
- `app/`: what runs the library: files, the network, timers and state of the process.
- `tests/`: the library on concrete values.

## How it works

The library does no input or output. Where a decision depends on the network, the clock or the
order of events, a function takes what happened and says what to do next; `app/` does it and
reports back. The library's contracts say what each such step leads to, and public proof functions
state what holds over several of them.

Outside crates appear in the library where its logic needs them: `rand` for jitter and random
order, `tokio` for the channel on which a client waits, `rustls-pki-types` for names of servers, and
`dashmap` for the registries of `src/replication/status.rs`. Each such call stands behind a small
function whose contract is trusted; a comment above it says what is claimed.
