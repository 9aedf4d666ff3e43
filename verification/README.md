# payments_core

Verified core of a payments platform, written in Verus.

- `src/` is the verified library: the loyalty-points and payment-insurance
  contract state machines (over a small model of the contract host in
  `contract_env`, with association tables in `table`), and the decision logic
  of the backend services: compliance scoring and velocity limits, payment
  reconciliation, webhook signing and retry scheduling, audit-log query
  building, payout batch totals, analytics and CSV export, currency codes.
  HMAC-SHA256, SHA-256, hex and upper-casing are called from their crates
  through a few trusted wrappers in `webhook` and `currency`.
- `tests/` exercises the library on concrete values.
- `app/` is the unverified host: PostgreSQL access, HTTP clients and
  handlers, the Soroban contract glue (storage, authorisation, token transfers,
  events), and the floating-point scoring and exchange rates.

The contracts' stored maps are `table::Table`s rather than `soroban_sdk::Map`.
A Soroban `Map` lives inside a host `Env` and is keyed by host values; off a
ledger (without the SDK's test utilities) it cannot even be created, so the
verified state machines could neither be run by the tests nor separated from a
live host. Declaring `Map` as a trusted outside collection was therefore not
attempted; the glue in `app/` rebuilds the host maps from the tables on every
call.
