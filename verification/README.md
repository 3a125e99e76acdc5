# saltnitor

A terminal dashboard and control API for a local `llama.cpp` model router,
with its decision logic verified in Verus.

## Layout

- `src/` — the verified library.
  - `text.rs`: the string model (`lines`, `split`, `trim`, `contains`, …)
    that every contract is written over, with executable counterparts.
  - `ini.rs`: rewriting one `[section]` of the router's preset file; laws for
    reading a written key back and for leaving other sections and lines alone.
  - `app.rs`, `keys.rs`, `events.rs`: the dashboard's state, what each key
    press and each background event does to it, and the work handed to the
    front end (`Action`).
  - `control.rs`: the control API's decisions — authentication, the
    "make this profile resident" state machine (`EnsureMachine`), the chat
    proxy's gate, and reading the router's model list.
  - `client.rs`: the dashboard's side of the router — model discovery, the
    streamed chat payload and its server-sent events, the port auditor.
  - `probe.rs`: `nvidia-smi` rows, `/proc/meminfo`, and the RAM inspector's
    process ranking.
  - `names.rs`: quantisation and parameter-count words of model file names,
    and file names of paths.
  - `setup.rs`: configuration path and settings, the pre-flight dependency
    verdict, the saved payload history and the crash-dump path.
  - `tuning.rs`: the keys the tuner writes and the outcome of that write.
  - `display.rs`: what the terminal view decides before it draws.
  - `json.rs`: JSON values as the verified code reads them; parsing and
    writing go through `serde_json`.
- `app/` — the program around the library: terminal I/O, the HTTP server,
  process and file access, and the floating-point estimates.
- `tests/` — tests of the library's public functions.
