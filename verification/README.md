# kimi_companion

A Windows companion for the kimi CLI running in WSL: it starts and stops
`kimi web` (and the kimi TUI), installs the token bookkeeping hook, imports token
usage from the WSL ledger, from Codex rollout files (Windows and WSL) and from the
Kimi Code desktop application into SQLite, and serves the dashboard's figures.

## Layout

- `src/` — the library, verified with Verus. Every decision lives here, with its
  contract:
  - `text`, `numeric`, `strings`, `timestamp`, `json`, `jsonl`: line splitting,
    decimal parsing and formatting, UTC timestamps, JSON Pointer lookups through
    `serde_json`, the quick `"type"` filter;
  - `incremental`: resuming a file from its stored byte offset, consuming whole
    lines only;
  - `ledger`, `codex`, `win_kimi`: the three importers (rows of a round, the
    status after a round) and the laws that importing in pieces equals importing
    at once;
  - `wsl`, `hook`, `upgrade`, `desktop`: the command lines run in WSL and what
    their outputs mean;
  - `launcher`: the launch status, and start, restart and stop as step functions
    from what the last outside action gave back to the next action;
  - `stats`: the dashboard's figures from the database's sums;
  - `models`: the values handed to the user interface.
- `tests/` — tests of the library on concrete values.
- `app/` — the program around the library: the Tauri commands, the SQLite store
  (`rusqlite`), `wsl.exe`/`reg`/`tasklist` processes, files, HTTP (`reqwest`), the
  background threads; each takes its decisions from the library.

The hook scripts (`companion-hook.py`, `companion-hook.sh`) are read at run time
from a `hook/` directory beside the executable.
