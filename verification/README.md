# rinfra_plugins

The plugin layer of a backend infrastructure framework: listeners and their
middlewares, caches, message buses, locks, key management and encryption,
translation catalogs, configuration loading and hot reload, cluster
membership and the `rinfra` command line.

The library in `src/` is written in Verus. Functions state in their
contracts what they return, and Verus proves it. Where a result comes from
an outside crate, the contract names it (the bytes a serialiser writes, the
value a parser reads) or, where it rests on the clock, chance or shared
memory (timestamps, tokens, atomic connection state), states only what
holds of every outcome. Laws that relate several
operations (what a read gives back of a write, what a refused request is
answered, what each session state machine does on every event) are public
proof functions next to the operations they speak of.

- `src/` — the verified library: parsing, routing, state machines, data
  structures and the decisions taken around every outside call. Calls into
  outside crates and std (encryption, compression, serialisation, clocks,
  random numbers) go through small trusted wrappers whose contracts say what
  the crate documents.
- `tests/` — tests of the library on concrete values.
- `app/` — the runtime around it: the async drivers that perform the actions
  the session state machines ask for, file and network I/O, the Redis, NATS
  and HTTP clients, logging setup and the clap front end.

Build and check with the Verus toolchain; `cargo test` runs the tests.
