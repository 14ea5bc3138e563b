# memtui

The verified core of a terminal memory monitor.

- `src/app.rs`: application state: focus cycling, updating with a memory
  snapshot, keeping the selection on the chosen process, key handling.
- `src/ordering.rs`: the orders of the process list and a stable sort,
  with proofs that the sort is unique and idempotent.
- `src/ui/widgets`: sort modes and the process list's selection state.
- `src/ui/layout.rs`: screen layout on top of ratatui's constraint solver.
- `src/config.rs`, `src/collector`, `src/input.rs`: configuration values,
  process figures and keyboard input as plain values.
- `app/`: reading the configuration file and converting between the
  library's values and those of crossterm and ratatui.
