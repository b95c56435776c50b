# arags

The decision core of the ARAGS retrieval server, written in Verus and proved
against its contracts.

- `src/` is the verified library: quorum decisions over candidate agreement,
  the per-user rate limiter, chunk versioning, the RLM work-queue rules,
  exploration-map bodies, feedback and staleness, debounced persistence,
  reconcile bookkeeping, token hashing and expiry, hex and text helpers.
  Calls into `sha2`, `zstd`, `serde_json`, `getrandom` and std (the
  system clock among them) sit behind small trusted wrappers whose
  contracts name what they return.
- `tests/` runs the library on concrete values.
- `app/` holds what Verus does not check: the SQLite statements
  (`rusqlite`), the shared lock (`parking_lot`), the environment, ids
  (`uuid`), log events (`tracing`) and the floating-point arithmetic of
  the quorum similarities and the cascade tolerance. It hands plain
  values to the library and acts on what comes back.
