# zed_registry

The verified core of the zed package registry and of its editor assistant,
written in Verus. Every function in `src/` carries a contract that Verus
proves; the few calls into outside crates (SHA-256, percent-encoding of a
byte, UUID text and parsing, TOML parsing, zip and tar.gz entries, the clock and RFC
3339 rendering, `String::push`) sit behind small trusted wrappers whose
contracts say what those crates document.

## Layout

- `src/text.rs`, `src/crypto.rs` — character and string helpers, decimal
  rendering and parsing, digests and encodings.
- `src/rbac.rs`, `src/auth.rs`, `src/error.rs` — roles, bearer tokens,
  authentication and the error every handler answers with.
- `src/audit.rs` — the tamper-evident audit chain: entry hashes, appending,
  and chain verification, with its laws (an untouched chain verifies, a
  deletion is a gap, a truncated prefix still verifies, appending keeps a
  chain intact).
- `src/publish.rs`, `src/orgs.rs`, `src/catalog.rs`, `src/versions.rs` — the
  publish pipeline and org claims as step-by-step state machines, listing and
  version selection with a total version order.
- `src/storage.rs` — artifact keys and the bounded in-process artifact
  store (reads give back writes; the bytes held are the total of the stored
  lengths and never exceed the capacity).
- `src/metrics.rs` — per-route counters and the Prometheus text page.
- `src/config.rs`, `src/server.rs`, `src/tokens.rs`, `src/verify.rs`,
  `src/files.rs`, `src/embeddings.rs` — configuration from the environment,
  process commands, token administration (the created token's row,
  idempotent revocation), tag provenance checks, serving single files from
  artifacts (entry lookup in zip and tar.gz artifacts, with a verified
  inflation budget against gzip bombs), and embedding-store rules.
- `src/air.rs`, `src/manifest.rs`, `src/mcp.rs` — workspace diagnostics
  (each code at most once, ZED000 only alone, ZED001 exactly when the CLI is
  missing; more diagnostics never withdraw an action but the lock-only
  case's), reading a manifest's identity
  from its TOML document, and the read-only MCP routing of the editor
  assistant.
- `app/` — the `zed-air` command around the library: file-system reads,
  process spawning, JSON and float formatting.
- `tests/` — tests of the library on concrete values.
