# flux

The logic of the Flux system-monitor widget, its remote-monitoring feed and
its installer, written in Verus: each function carries a `requires` /
`ensures` contract that Verus proves.

## Layout

- `src/` — the verified library.
  - `text.rs` — string helpers (trimming, splitting, searching, decimal
    numbers) with their specifications.
  - `crypto.rs` — Base64, SHA-256 and HMAC-SHA256 through the `base64`,
    `sha2` and `hmac` crates (trusted wrappers).
  - `json.rs` — reading fields of, and writing, small JSON objects through
    `serde_json` (trusted wrappers).
  - `protocol.rs`, `ratelimit.rs`, `identity.rs`, `remote.rs` — the
    remote-monitoring handshake key, the HMAC challenge/response, the
    per-address lockout, the server identity and the client manager's
    reconciliation.
  - `updates.rs` — release versions, change logs, checksums and the
    update plan.
  - `settings.rs`, `widget.rs` — widget settings and the decisions of the
    settings panel (tiles, presets, undo, devices, share codes, labels).
  - `clock.rs` — the clock tile's face and the "last checked" line, from
    the local time read with `chrono`.
  - `sensor.rs`, `cpu.rs`, `gpu.rs` — decoding of hardware readings (CPU
    temperature registers, GPU library versions, drive and RAM info).
  - `engine.rs`, `setup.rs`, `payload.rs` — the installer: the ordered
    steps of an install and an uninstall, the report each leaves, the
    command-line switches and the setup wizard's state machine.
- `tests/` — tests run against the compiled library with the real outside
  crates, among them a TLS handshake between a server and a client.
- `app/` — the installer program: it performs the steps the library
  decides on (files, registry, services, shortcuts, elevation).

Functions named `law_*` are proof functions that state properties relating
several operations (round trips, invariants kept by every operation).
