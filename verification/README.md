# kimmy_api

The decisions behind a document database's HTTP edge, written in Verus: what a
request is allowed to do, which documents a query returns and in what order, what
an error says, when a caller is over its limit, which node delivers a webhook and
what is in it, and what a scrape of `/metrics` reads. Each is a function from plain
values to plain values whose contract Verus proves.

- `src/text.rs`, `src/json.rs`, `src/codec.rs`: text, JSON and BSON values, and the
  encodings that other crates compute.
- `src/error.rs`: error codes, the error envelope, and how failures below map to it.
- `src/exec/`: reads, writes, schema changes and pipelines over documents.
- `src/dispatch.rs`, `src/progress.rs`, `src/ownership.rs`, `src/expiry.rs`: the
  background work and who does it.
- `src/metrics.rs`, `src/metrics/`: counters and the page they are read from.
- `src/ratelimit.rs`, `src/limits.rs`, `src/local_login.rs`, `src/federation.rs`,
  `src/audit.rs`, `src/roles.rs`, `src/backup.rs`: the rest of the edge.
- `app/`: sockets, clocks, locks, files and log lines around the library.

Instants are handed in as numbers read from a clock, members of a cluster as the
texts that name them, and doubles as the bits of their IEEE 754 form.
