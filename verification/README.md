# codex_account_manager

A manager for several Codex (ChatGPT) accounts: it keeps each account's
`auth.json` in a local SQLite library, switches the one Codex uses, refreshes
tokens and quotas, runs a local proxy that forwards Codex's requests with the
chosen account, exports and imports password-encrypted backups, and repairs a
few settings of the Codex installation (`config.toml`, the desktop app's
global state, session visibility).

## Layout

- `src/` is the library, verified with Verus. Every rule the manager applies
  is there with its contract: editing `config.toml` (speed, trusted projects,
  proxy provider), reading Codex logs, `auth.json` documents and JWTs, the
  OAuth URL, callback and token answers, the proxy's request parsing, routing
  and headers, the app-server WebSocket frames, backup sealing and opening,
  session metadata and the session-visibility repair plan, the usage counts
  of the Codex logs, and the account-facing messages. Files named `*_laws.rs`
  hold properties that relate several functions (an installed proxy reads as
  installed, a removed one never does, a speed setting reads back, a trusted
  project stays trusted, percent-decoding undoes percent-encoding, the OAuth URL reads
  back its arguments, setting a speed twice is setting it once and leaves
  one tier line, removing the installed proxy gives the file back, edits
  keep the lines they do not target).
- Calls into outside crates (serde_json, base64, sha2, rand_core, chrono,
  argon2, aes-gcm) stand behind small trusted wrappers whose contracts state
  what those crates document.
- `tests/` runs the library on concrete values.
- `app/` is the unverified shell: files, SQLite, HTTP, sockets, processes,
  the serde records the frontend exchanges, and the floating-point usage
  cost estimates.
