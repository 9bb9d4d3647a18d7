# omsrs

An order-management core, verified with Verus.

- `src/lifecycle/` — the per-order state machine: `apply_event` (one event,
  one order), `replay` (a sequence of events) and `rebuild_ctx_from_journal`
  (crash restart from the durable journal). Every transition is proved to keep
  the context's identity and monotone counters, to release an order's
  reservation only on a true terminal whose gates hold (once, last), to leave
  the context untouched on a reject, and to treat a re-delivered fill as a no-op.
  Fill accounting is kept by every transition (the attributed qty is the total
  qty of the applied fills, within the obligation, itself within the order qty).
  Crash restart is proved sound for the steps `replay_covered` admits: replaying
  the journal records such a step emits reaches the context the step left (or
  stops with the step's halt reason), and over a whole run of such steps as well;
  `rebuild_ctx_from_journal` returns exactly that context (field by field, the
  fill map entry by entry), or an error when the replay stops. The steps left
  out are those the state machine itself does not fully journal: a venue
  observation meeting a latched authority that lags the obligation (live keeps
  the latch, replay clears it), and a cancel outcome or an immediate-fill
  attribution whose response snapshot is news to the context (the step copies it
  in without a record).
- `src/parity_gate.rs` — parity-gate arithmetic and excused-list validation.
- `src/simulation.rs` — vocabulary of the simulated venue and its parsers.
- `src/models.rs`, `src/utils.rs` — decimal positions (arithmetic through
  `rust_decimal`) and quantity bookkeeping.
- `app/` — the shell side: serde forms of the journal and models, the
  persistence trait, thiserror errors, and the JSON row filter.
- `tests/` — scenario tests of the state machine and tests of the helpers.

Not included: the multi-order observation/ledger round (the order-transaction
journal, ledger ids and market inventory it is built on are not part of this
code base), the broker, clock and compound-order layers, and the float and
random parts of the simulated venue.
