# hyprs_log

Logging for the Hypr ecosystem: a logger with terminal, file, JSON-lines and
remote outputs, inline style tags and automatic highlighting, a TOML
configuration with includes and per-application overrides, log retention
(age, date, keep-last and size limits, gzip compression), and Hyprland event
streaming.

- `src/` is the library, verified with Verus: every public function states
  what it returns or changes, and the laws of the library (retention,
  severity filtering, style parsing, stripping highlight tags, casing
  transforms, event routing, preset listing) are proof functions.
- `app/` is the `hyprlog` program around it: reading the configuration file,
  walking and compressing log files, sockets, writing records to their
  outputs, and the C interface.
- `tests/` runs the library on concrete values.
