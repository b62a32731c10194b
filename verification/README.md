# compute-commons-core

The verified domain core of Compute Commons, a permissioned platform for
sharing computation on public or synthetic data.

- `src/registry.rs` — Ed25519-signed workload packages addressed by their
  BLAKE3 digest, and the approved-only registry.
- `src/coordinator.rs` — privacy tiers, nodes, jobs, expiring leases, replay
  rejection and exact result verification, with a plain-value model of the
  scheduler and its laws.
- `src/ledger.rs` — fixed-cost, non-transferable credit with idempotent
  settlement, kept as hash-linked entries.
- `src/audit.rs` — the hash-linked audit chain and its signed root.
- `src/runtime.rs` — Wasm execution with fuel metering and no host imports.
- `src/demo.rs` — one complete local job, end to end.
- `src/crypto.rs`, `src/text.rs` — digests, signatures and the renderings
  that canonical records are built from.
- `app/main.rs` — the `compute-commons` command line (`demo`,
  `explain-privacy <tier>`).

Every operation's contract is stated over plain-value models (`@`), and the
laws (settlement idempotence, credit conservation, replay rejection, no
privacy downgrade, fresh lease identifiers, registry soundness, hash-linked
ledger and audit records) are proof
functions beside the code. Calls into `blake3`, `ed25519-dalek`,
`serde_json` and `wasmtime` go through small trusted wrappers whose
contracts state their results (JSON string escaping) or name them (digests,
signatures, Wasm runs). Creating the Wasm engine may fail for reasons of the
machine, so only what holds of a built engine is stated: it meters fuel
exactly when configured to. The demo's steps
after the Wasm run are a verified function of the run's outcome
(`conclude_demo`).
