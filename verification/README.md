# activate_linux

A Wayland layer-shell overlay that shows an "Activate Linux" watermark in a
corner of every output.

- `src/` is the verified library (Verus):
  - `placement.rs`: the edges a corner anchors to, the layer-surface margins;
  - `color.rs`: reading the `--color` option (`#RGB`, `#RRGGBB`, `RGB`, `RRGGBB`);
  - `options.rs`: resolving margins and settings from the arguments;
  - `outputs.rs`: choosing the output globals to bind and their versions;
  - `overlay.rs`: per-output surface state, and when to redraw or exit.
- `app/` is the program: argument parsing, the Wayland connection, Cairo
  rendering and shared-memory buffers.
- `tests/` runs the library on concrete values.
