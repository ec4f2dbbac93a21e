# hyprnav

Directional navigation for the Hyprland compositor, with its decisions
verified in Verus.

- `src/model.rs`: the windows, monitors, directions and subcommands the
  decisions read.
- `src/geometry.rs`: the neighbouring monitor, the outermost windows of a
  workspace, the outermost floating window, and whether a window touches the
  monitor's edge.
- `src/dispatch.rs`: the actions a key press turns into and the dispatcher
  calls (name and argument table) that perform them.
- `src/navigate.rs`: the handlers for an empty workspace, up/down and
  left/right, each returning the actions to dispatch in order.
- `src/laws.rs`: properties that hold of every input.
- `app/`: the command line, reading the compositor's state and performing
  the dispatches.
