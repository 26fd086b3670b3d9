# Aseman node

A verified core for a workload-hosting node: what its actions do to money, creatures, stores,
programs and running instances, and what its small HTTP services answer. Every function of
`src/` carries a contract that Verus proves; `app/` is the process around it.

## Layout

- `src/text.rs`, `decimal.rs`, `table.rs`, `json.rs`, `order.rs`: texts, numerals, keyed rows,
  documents and orderings, on which the rest is stated.
- `src/outside.rs`, `clock.rs`: the calls into other crates (hashes, encodings of bytes and of
  documents, reading documents and times, addresses, keys, the time and new identifiers), each
  with the contract that is taken from it.
- `src/finance/`: holds, pools, payouts, the market of resources and its quotes, the journal,
  the reconciliation of the books. `facts.rs` gathers what other records say of a hold, and
  `scan.rs` what a reconciliation reads. `laws.rs` and `earning_laws.rs` state what every movement of
  money keeps, `quote_laws.rs` what holds and runs owe to the quotes that were published, and
  `audit_laws.rs` that a reconciliation finds no fault with books that were kept so.
- `src/creature/`, `src/store/`, `src/program/`: creatures with their logins, locks,
  transfers and secrets; stores with their members and signals; programs with their machines,
  deployment, instances, billing and gateway routes.
- `src/authority.rs`: who may do what.
- `src/actions/`, `src/packets/`, `src/models.rs`: the actions that a node installs, what
  requests carry, and the records on the wire.
- `src/host.rs`, `workloads.rs`, `guest_data.rs`: what a running instance may ask of its node.
- `src/storage_http.rs`, `telemetry.rs`, `startup.rs`: the HTTP services and the start of a
  node.
- `tests/`: the library run on values.
- `app/`: sockets, files, threads and the process; requests are read there, handed to the
  library, and its replies rendered.

A law is a public proof function whose name begins with `law_`.
