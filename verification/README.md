# powertoys_core

The platform-independent logic of several desktop utilities (FancyZones,
Find My Mouse, Mouse Highlighter, Crosshairs, Measure Tool, Light Switch,
Cursor Wrap, Quick Accent, File Locksmith, the settings documents and the
logger), written in Verus with contracts that are proved.

- `src/` is the verified library: data structures, layout and zone
  geometry, keyboard and mouse state machines, settings parsing from JSON
  text (read by `serde_json` into `json::JsonValue`), edge detection, path matching, and the laws
  that relate operations (what a read gives back of a write, what a round
  trip through JSON keeps, which orders do not depend on the input order).
- `app/` is ordinary Rust around it: files, the serialized forms of the
  library's types through `serde`, the log file
  through `tracing-appender`, the Win32 calls, the C interfaces, and the
  computations that need floating point (sun positions, angle-weighted zone
  search, fade opacity, shake distances, unit conversion).
- `tests/` runs the library on concrete values.
