# dsh_desktop

The logic of DSH Desktop, the Tauri shell around DeepSeek Harness, as a
library verified with Verus.

- `src/` — the verified library. `runtime`, `lifecycle`, `dispatch`,
  `notify`, `adapter` and `send` hold the Codex backend's state machine:
  the app-server's JSON-RPC replies and notifications, the session links,
  the bounded event queues, approvals, goals and turns. `catalog`, `prompt`
  and `attach` build what a turn sends. `usage` keeps the sanitized usage
  snapshot; `board`, `plugins`, `logging`, `navigation`, `detect`,
  `validate` and `supervisor` hold the rules of the other parts of the
  desktop. `json`, `text`, `strmap` and `order` are the data structures they
  share, `jsontext` reads and measures JSON text, and `paths` splits POSIX
  paths into components. Calls into base64, chrono, url and serde_json stand
  behind small trusted wrappers whose contracts are stated where they are declared.
- `tests/` — the tests, run against the compiled library.
- `app/` — the Tauri application: windows, tray, commands, the app-server
  and harness processes, files and logs. It hands the library plain values
  and performs what the library decides.
