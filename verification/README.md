# hyprosd

An on-screen display for Hyprland/Wayland that shows volume, brightness and
the caps/num lock state.

- `src/` is the library, checked with Verus: the daemon's remembered state and
  message handling (`state`), the `show` command line logic (`cli`), reading
  tool output and sysfs files (`query`, `text`), change detection in the
  backends (`watch`), presentation and layout decisions (`ui`), the stylesheet
  (`style`) and the configuration (`config`).
- `app/` is the program around it: argument parsing, the Unix socket, running
  `wpctl`/`pactl`, reading sysfs, file watching and the GTK window.
- `tests/` runs the library on concrete inputs.
