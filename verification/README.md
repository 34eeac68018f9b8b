# niri_remote

A touch-friendly remote control for the Niri Wayland compositor: an
interactive terminal screen that mirrors the monitors, columns and windows of
Niri, and a command line (`list`, `swap`, `close`, `fullscreen`, `move`).

- `src/` is the library, written in Verus: snapping of window widths, monitor
  ordering, workspace swapping, window and display lookup, the command line,
  the screen layout, and key and tap handling, each with its contract.
- `app/main.rs` runs `niri msg`, reads its JSON replies, draws the screen with
  ratatui and crossterm, and carries out the actions the library plans.
- `tests/` runs the library on concrete inputs.
