# spyglass

The search logic of a keyboard-driven launcher, written in Verus. Each lens turns a query
into entries; each entry says what picking it does.

- `src/` is the verified library: one module per lens (`apps`, `applications`, `calc`,
  `clipboard`, `dummy`, `nerdfont`, `power`, `process`, `web`), the entry types (`lib.rs`,
  `lens.rs`), the launcher's decisions (`launcher.rs`: reading the search box, choosing
  lenses, key handling), the clipboard tools (`copy_tool.rs`) and the character-level string
  operations they share (`text.rs`).
- `app/` is the program around it: the terminal interface, reading configuration files,
  the glyph download, the process list, and carrying out enter actions.
- `tests/` runs the library on concrete values.
