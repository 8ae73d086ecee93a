# hyprsechy

Session management for Hyprland with UWSM integration: the daemon records
which windows are open, on which workspace and with what command, saves that
session to disk, and brings it back after a restart, with a terminal prompt
that asks whether to restore and a terminal editor for the settings.

## Layout

- `src/` is the library, verified with Verus. It holds every rule of the
  program: the configuration and its defaults, the parsing of what Hyprland,
  systemd and desktop files report, the choice of the command that restores a
  window, the grouping of windows by workspace, the commands dispatched to
  place a restored window, the rotation of backups, the decisions of the
  daemon while it starts, and the state machines of the restore prompt and
  of the settings editor.
  - `text.rs`: characters, words, splitting, trimming, paths and numbers.
  - `config.rs`, `types.rs`, `error.rs`: the configuration and the data model.
  - `json.rs`: JSON values read through `serde_json`.
  - `hyprland.rs`, `systemd.rs`, `uwsm.rs`, `walker.rs`: what the outside
    world reports, read into the data model.
  - `session.rs`: what is saved of a session and how it is restored.
  - `daemon.rs`, `restore_tui.rs`, `tui.rs`: the daemon's start, the restore
    prompt and the settings editor.
- `app/` is the program around the library: the command line, the files,
  the processes and sockets, and the drawing of the two terminal screens.
  Besides carrying out what the library answers, it makes the choices that
  belong to that I/O: whether to query systemd units at all (only when UWSM
  is running), which unit's command to read for each window (the one the
  library's correlation assigns it), how long to poll a unit before giving
  up, and the gettext translation of desktop entry names, which
  depends on the machine's locale and message catalogs.
- `tests/` runs the library on concrete cases.
