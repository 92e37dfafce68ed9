# easytier-mac

Verified core of a macOS client for EasyTier: a root supervisor that launchd
starts on demand, owns one `easytier-core` process and serves exactly one GUI
connection at a time, plus the GUI-side bridge that drives it.

## Layout

- `src/` — the library, verified with Verus.
  - `supervisor/` — the control protocol (JSON Lines) encoder, the single-owner
    lease and core lifecycle state machine (`server`), stop escalation
    (`core_proc`), peer authorization (`auth`), config checks (`config`), hook
    gating (`hooks`) and orphan matching (`janitor`).
  - `bridge/` — the client view of the protocol, the driver's decisions
    (request routing, handshake verdict, reconnect backoff), the event JSON
    handed to the app, and install command construction.
  - `gui/` — conflict classification, profile ids, names and ordering, the
    RPC port holder and the auto-restart policy.
  - `text`, `json`, `paths` — character-level building blocks shared by the above.
- `app/` — the programs around the library: the supervisor's sockets, child
  processes, hooks and signals, and the GUI side's tokio driver and file
  access. It feeds the library plain values and performs what it decides.
- `tests/` — tests of the library's public API.

Laws of the library (owner lease, stop escalation, line limit, restart budget,
backoff, quoting round trips) are public proof functions beside the code they
are about.
