# stellar_router

A verified core for a Stellar/Soroban router toolkit, written in Verus.

- `src/timelock.rs` — the router timelock: a delayed-execution queue for
  sensitive configuration changes (initialize, queue, cancel, execute),
  with operation ids derived by SHA-256 from description, target and eta.
- `src/fees.rs` — fee estimation around Soroban's `simulateTransaction`:
  surge pricing, the simulated and the heuristic fee breakdown, and how an
  RPC reply is judged.
- `src/session.rs` — the decisions of a transaction-status WebSocket
  session, as a step function from event to state and actions.
- `src/harness.rs` — the testnet harness: `stellar` CLI arguments, how
  its output is read, and the order in which contracts are deployed and
  initialized.
- `src/text.rs` — trimming, line splitting, splitting and decimal parsing
  with the meaning of the corresponding `str` methods.
- `app/` — the HTTP/WebSocket server and the CLI runner around the library.
- `tests/` — tests of the library on concrete values.
