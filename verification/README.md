# memcore_storage

Storage layer of a multi-tenant memory engine, written in Verus.

- `src/` is the verified library: the in-memory stores (facts, memory
  events, API keys, organization plans, provider usage, usage snapshots,
  background job runs and leases, vectors) with their laws, the
  statements the SQLite and PostgreSQL backends assemble from a query's
  filters and cursor, as text and bound values,
  the decoding of stored rows, migration bookkeeping (checksums, ordering,
  validation, planning), the startup check, backup checks, context-cache
  keys and read decisions, and the filters and payloads of the Qdrant and
  LanceDB vector stores. Calls into `chrono`, `uuid`, `serde_json`, `sha2`
  and `hex` go through small trusted wrappers in `parse.rs` and
  `hashing.rs`, whose contracts name what those crates return.
- `app/` is ordinary Rust around it: the sqlx stores for both databases
  (with their fixed insert, update, delete and count statements),
  the migration runners, the startup check, backups on disk, the Qdrant
  client, the Redis cache, and the floating-point scoring of vector search.
- `tests/` runs the library on concrete values.
