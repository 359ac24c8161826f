# veil_core

The core of VEIL, a desktop customization daemon: its registry of addons,
assets and system data, its IPC and HTTP request handling, its configuration,
tracking and tray logic, the settings pages' YAML and catalogue handling, and
the readings it derives from what the system reports.  The library is
verified with Verus: each function's contract is proved, and the few calls
into std and outside crates are wrappers whose contracts state what their
documentation promises.

## Layout

- `src/` — the verified library, one module per concern:
  - `text`, `json`, `yaml`, `order`: text, JSON and YAML values, stable sorting;
  - `config`, `tracking`, `daemon`: backend settings, the polling tiers and
    demand tracking, the updater's signals;
  - `registry`, `dispatch`, `http`, `addon`, `tray`, `cli`, `paths`: the
    registry and its JSON, the IPC namespaces, the HTTP bridge, addon
    lifecycle replies, the tray's menu, the command line, file paths;
  - `report`, `appdata`, `display`, `window`, `stats`, `clock`, `gpu`,
    `media`: the readings built from probe reports, monitors, windows,
    processes, the clock, the GPU and the media session;
  - `wallpaper`, `sentinel`, `shell`, `shell_message`: the settings pages'
    wallpaper profiles, addon catalogue, shell URLs and the files its
    requests name, and the actions the shell's messages ask for.
- `tests/` — tests of the library on concrete values.
- `app/` — the daemon around the library: reading the machine, files,
  sockets, processes and the command line.

The laws the library keeps (reads giving back writes, merges that change
nothing when repeated, orders that keep every item) are public proof
functions whose names start with `law_`.
