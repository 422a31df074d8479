# arbishield

Security contracts for EVM chains — anomaly detection, circuit breaking and an
alert registry — written as verified state machines over plain values.

## Layout

- `src/` — the verified library.
  - `word.rs`, `address.rs`: 256-bit words (arithmetic through
    `alloy_primitives`) and 20-byte addresses, with their models.
  - `table.rs`: a small association list standing for contract storage
    mappings, viewed as a `Map`.
  - `rbac.rs`: role bitmasks and their laws.
  - `detection_engine.rs`, `circuit_breaker.rs`, `alert_registry.rs`: each
    contract as a model state (`*State`, with one spec function per
    operation's outcome, events included) and an executable struct whose
    operations are proved to refine that model.
  - `abi.rs`: Solidity ABI encoding of custom errors (selectors through
    `alloy_primitives::keccak256`, words through `alloy_sol_types`).
  - `*_laws.rs`: what the operations keep across calls (monotone counters,
    permanent records, guarded state machines, shared error encodings).
  - `shield.rs`: the deployment entry contract.
- `tests/`: scenarios and law checks on concrete values.
- `app/`: the external ABI around the library — alloy types in, ABI-encoded
  errors and event logs out — and the ABI export entry point.

Block time and the message sender are arguments of the library's operations;
the host supplies them.
