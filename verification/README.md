# osvwm

The logic of the OSV desktop tools as a Verus library: every function in
`src/` with something to state carries a contract that Verus proves, and the laws that hold across
functions are stated as proof functions beside them.

## Layout

- `src/` — the verified library
  - `workspace`, `keybindings`, `wallpaper`, `ipc`: the compositor's eight
    workspaces, window sizes, hard-wired key bindings and the messages of
    its socket protocol.
  - `bar`, `colors`, `bar_client`: the bar's workspace indicators, their
    colors, the frame copy, and the workspace switch requests.
  - `apps`: desktop-file parsing, fuzzy ranking and the launcher daemon's
    request/response exchange.
  - `battery`, `applets`, `datetime`, `display`, `input`, `keyboard`,
    `network`, `power`, `system`, `telemetry`, `vpn`, `connections`: the
    control panel's readers of sysfs/procfs files and tool output, and the
    arguments it hands to those tools.
  - `text`, `order`, `duration`, `raster`: string and number handling,
    stable sorting, and the declarations of what is used from `std` and
    `tiny-skia`.
- `tests/` — tests run against the compiled library.
- `app/` — the programs: the launcher daemon and client, the bar renderer,
  and the control utility that reads files, runs tools and prints reports.
  Floating-point work stays there too: window widths as fractions of the
  screen (built from the library's width in thirds), pointer speeds, rates.
  The wallpaper's placement on an output (fit, fill, crop and centre) is
  f64 arithmetic on the compositor's rectangle types and is not in this
  crate.
