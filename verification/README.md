# altium_tools

The decision logic of a set of Altium library tools (read, write, search,
update, render and style extraction of `.PcbLib` and `.SchLib` files),
written in Verus: every function in `src/` is verified against its
contract, but for a few thin wrappers whose contracts state what `std`,
`regex`, `uuid` and `base64` promise.

- `src/` is the library. A tool request reaches it as a plain JSON model
  (`json.rs`); `requests.rs` reads its arguments, and the readers turn its
  records into library records (`records.rs`,
  `shapes.rs`, `pads.rs`, `vias.rs`, `texts.rs`, `bodies.rs`,
  `primitives.rs`, `connect.rs`), and `symbol.rs` and `footprint.rs` read
  a whole symbol or footprint, refusing it for the first record that its
  reader, or the caller's own check (a layer name, a fractional bound),
  refuses. `vocab.rs` and `accepted.rs`
  hold the accepted spellings, `query.rs` the search patterns and dry-run
  previews, `report.rs` and `style.rs` what the tools report back, and
  `canvas.rs` with `render.rs` the character canvas of the render tools.
- `app/` is the unverified rim: converting `serde_json` values into the
  library's model, the fractional geometry the library leaves to its
  caller, and building JSON answers.
- `tests/` runs the library on concrete requests.

Fractional numbers never enter the library: where a record has fractional
coordinates, the library decides everything else about it and the caller
reads the coordinates.
