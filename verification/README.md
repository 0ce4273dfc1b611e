# bevy_gutzgutz

A game-session toolkit for Bevy games, with its rules and bookkeeping
verified by Verus, and the Funkoro puzzle game built on it.

- `src/` — the verified library: sprite-atlas validation and packing
  (`atlas_build`, `atlas_pack`, `atlas_image`, `atlas_manifest`,
  `atlas_message`), the run-time atlas registry, execution contexts and
  pause (`lifecycle`), input sources, context restrictions and binding
  files (`input_source`, `input_map`, `input_config`), the UI screen stack,
  save locations, Steam status, the developer-overlay data (`devtools`), and
  the rules of the two Funkoro editions (`funkoro`, `funkoro_nest`).
- `tests/` — tests of the library.
- `app/` — the program: Bevy plugins and systems, file and image I/O,
  TOML, egui, Avian3D, Steamworks, and everything computed in floating
  point.
