# codex_plus_core

The core of the Codex++ launcher and its managed relay proxy, written in
Verus: every function in `src/` carries a contract that Verus proves, and the
laws of the library (what one call undoes, what every operation keeps) are
public proof functions beside the code they speak of.

## Layout

- `src/` — the verified library.
  - `text.rs`, `formats.rs`, `http_text.rs`, `paths.rs`, `crypto.rs`: the
    shared building blocks (characters, JSON/TOML access through `serde_json`
    and `toml_edit`, HTTP framing, file locations, hashing, HMAC and RSA).
  - `launcher.rs`: the launch command lines, the helper's HTTP routing and
    answers (`/backend/status`, `/backend/repair`, `/diagnostics/log`), the
    local backend API decisions and the quota refusal.
  - `managed_proxy.rs`: request parsing, routing, admin authorisation, error
    replies and payment webhook checks (HMAC and the official RSA
    signatures of Alipay and WeChat Pay).
  - `local_backend.rs`, `local_account.rs`, `local_usage.rs`: the checks
    and decisions of the local backend store, accounts and the daily meter.
  - `token_usage.rs`, `rollout.rs`: rollout and proxy usage events, the
    streamed-response usage tracker and the proxy ledger.
  - `secret_store.rs`: moving plaintext keys into the keychain.
  - the remaining modules: the model catalog, completion sound, diagnostics
    log, relay sync, navigation and smaller pieces.
- `tests/` — tests of the library on concrete values.
- `app/` — the I/O around the library: files, the keychain, the diagnostic
  log, the helper's socket, and the serde copies of library types.

## Checking

Verus verifies `src/`; the tests run against the compiled library with the
real outside crates linked.
