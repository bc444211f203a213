# niri-taskbar

A taskbar for the Niri compositor, as a Waybar module.

- `src/` decides, and is verified with Verus: which windows a bar shows, which
  widgets a window snapshot makes, updates and drops, in what order the bar holds
  them, which windows a notification marks as urgent, and which output a bar is
  restricted to.
- `app/` does what was decided: it owns the Gtk widgets and the event loop. The
  compositor, the notification daemon and the process table come in through its
  `Desktop` trait.
- `tests/` runs the library on concrete values.

An event goes to `Instance::task`, which returns a step. Where a step needs
something from outside, such as the parent of a process or the active workspace
of an output, `app/` finds it out and hands it to the next call: `walk_up` for a
notification, `process_window_snapshot` for a snapshot, `build_output_filter`
for the output filter.
