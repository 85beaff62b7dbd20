# nativelogi

The decision logic of the NativeLogi background agent's login item and of
its macOS packaging tasks, proved with Verus.

- `src/xml.rs` — XML text escaping, with proofs that escaped text holds no
  markup characters, reads back to its input and never spells new text out
  of entities.
- `src/launch_agent.rs` — the LaunchAgent plist and the reconcile decision,
  with proofs that a reconcile reaches the wanted state, is idempotent, and
  that the plist launches exactly the given executable.
- `src/trash.rs`, `src/text.rs` — naming of items moved to the Trash,
  decimal rendering and white-space trimming.
- `src/packaging.rs` — iconset slots, asset bundling switch, signing order,
  the Xcode environment, and the argument lists of `codesign`,
  `create-dmg`, `sips`, `iconutil`, `curl`, `xcrun` and `cargo`.
- `app/` — the file-system and process work around the library.
