# rwa-token

A token for real-world assets, written in Verus. Only parties that a KYC registry
approves can hold it, every transfer is put to a compliance engine, and the
supply can be capped. An admin and role holders run it; guardians can replace a
lost admin.

- `src/` is the verified library. `token.rs` holds the stored state, `host.rs`
  the surroundings of an operation: the ledger, the calls it makes, their answers
  and the events it publishes. The other modules hold the entry points by
  subject. `operation.rs` lists the entry points that change the state as values
  and runs them.
- Laws that span operations stand in `src/laws/`, and in `solvency.rs`
  (balances and supply), `holders.rs` (what the engine is told of holders),
  `invariants.rs` (what holds at all times) and `protocol.rs` (how an operation
  that waits for an answer is carried on).
- `tests/` runs the library: `token.rs` against a registry and an engine with
  state of their own, `rules.rs` rule by rule.
- `app/` is the Soroban contract around the library: storage, authorization,
  calls to the linked contracts and events.

An operation does no input or output. It takes the answers to its calls from the
front of an inbox and logs each call and event. Where the inbox is empty it stops,
with nothing changed, and the last entry of its log is the call to make. Whoever
runs it makes the call and runs the operation again with all answers so far.
