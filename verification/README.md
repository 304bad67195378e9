# hraw

A raw image format: a YAML or JSON header (width, height, offset, sample
layout) beside one or more raw bodies, in a directory or a zip archive.

- `src/` is the library, verified with Verus: saturating integer conversions
  (`rawnumber::clamp`), reading samples of every layout from bytes, floats
  included, by their bit patterns (`rawnumber`, `rawnumber::ieee`,
  `conversion`), the header and archive model (`lib.rs`), the bayer
  interpolation behind the PNG preview (`processing`), text indenting
  (`display`), the indexing that scripts use (`scripting`, `pixel`) and the
  command-line plan (`command`).
- `app/` is the command-line program and the parts that do I/O, run Lua or
  Python decoder scripts, or compute in floating point.
- `tests/` runs the library on concrete values.
