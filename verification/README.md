# hbb_common

The terminal service's logic, verified with Verus, and the program around it.

- `src/` is the verified library:
  - `text`: character-level text operations (quote stripping, pattern removal, prefixes).
  - `numeric`: decimal text of `i32`, reading decimal `i32`, and the whole-gigabyte
    figures computed as `f64` division would compute them, in exact integer arithmetic.
  - `json`: reading JSON replies through `serde_json`, and looking members up.
  - `report`: printers and their consumable levels, the host report sent to the server,
    and the reading of the server's and printers' replies.
  - `config`: the configuration file and the platform pictures to download.
  - `webview`: IPC requests and the window commands as a state machine.
  - `tray`: the tray icon's event loop as a state machine.
- `app/` holds the I/O: files, HTTP, system figures, windows and the tray icon.
- `tests/` runs the library on concrete values.
