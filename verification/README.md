# chronopay

A verified ledger for ChronoPay time tokens with professional identity
authorization, written in Verus.

- `src/contract.rs` — the ledger (`ChronoPayContract`): admin, registry of
  authorized professionals, time slots and time tokens, one method per
  contract entry point; each method's contract is a step function over the
  abstract `LedgerModel`, and says which addresses must authorize and which
  events are emitted (`Effects`).
- `src/schedule.rs` — the slot book: sequential slot ids and per-professional
  non-overlapping half-open windows.
- `src/table.rs` — a string-keyed table read as a map.
- `src/events.rs` — the audit events and their topics.
- `src/errors.rs` — error codes and their conversion to `soroban_sdk::Error`.
- `src/history.rs` — the registry and the enumeration list read off any
  sequence of calls: who is authorized, with which metadata, in which order.
- `src/laws.rs` — properties that span entry points (refusals change nothing,
  slots never overlap, the enumeration list stays consistent, unauthorizing
  undoes authorizing, the token lifecycle).
- `app/lib.rs` — the Soroban contract: loads the ledger from instance storage,
  runs the verified entry point, performs the required authorizations,
  publishes the events and stores the ledger back.
