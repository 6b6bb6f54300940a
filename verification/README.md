# Ceyrad

Shows the track Apple Music for Windows is playing as a Discord Rich Presence,
from the notification area.

The crate is in two parts.

- `src/` is the library, verified with Verus: the app's decisions are
  functions with contracts, and the few calls into `serde_json` and `std` they
  make stand behind small trusted wrappers whose contracts name what the call
  returns.
  - `portable/`: the track model, text cutting, the activity sent to Discord,
    the settings and the menu built from them, the catalog match, version
    comparison, the status rows, deadlines and the debounce.
  - `discord/`: the IPC wire format (`protocol`), the fields read out of a
    frame's JSON body, and one connection's state machine (`client`), which
    the diagnostic probe drives too.
  - `orchestrator`: the event loop's decisions. Each pass of the loop hands a
    `Conductor` what happened and performs what it answers with.
  - `catalog`, `smtc`, `updater`, `http`, `launch_at_login`, `tray`: what the
    lookup thread, the media session reader, the update check, the HTTP
    client, the `Run` key and the tray decide, without doing the I/O.
- `app/` is ordinary Rust around it: the Windows event loop, the named pipe,
  WinRT media sessions and HTTP, the registry, the dialogs, the tray icon,
  the JSON serde reads into or writes out of the library's types, and the
  glyph drawn in floating point. The Windows-only parts build on Windows.

`tests/` runs the library on concrete values.
