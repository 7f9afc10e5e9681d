# cs2_webradar_extreme

The logic of a radar runtime for CS2, verified with Verus.

- `src/` is the verified library:
  - `contracts`: the versioned snapshot schema sent to the UI.
  - `model`: raw frames as a data provider reports them.
  - `engine`: turns frames into snapshots (placeholders while no usable
    frame arrives, stale-entity counts, a per-entity weapon cache).
  - `mock`: a synthetic provider for running without the game.
  - `dump_runtime`: dump packs and the choice between the user pack and the
    bundled one.
  - `signatures`, `refresh`: byte-signature search and schema normalization
    for building a dump pack. The offsets found are kept in `OffsetTable`, a
    list of entries whose names are distinct, viewed as a map from names to
    offsets, in place of a `BTreeMap<String, u64>`: vstd specifies maps with
    string keys too weakly to prove what a table of names needs. The order of
    entries is never observed; the written `offsets.json` sorts the names.
  - `json`: the JSON document model the dump files are read into, and the
    parse of a JSON text into it.
  - `desktop`: run options and start-up decisions, request routing for the
    browser-hosted UI, port fallback, tick pacing and console output.
  - `paths`: file-system paths, built with the standard library.
  - `text`, `clock`: character helpers and the wall clock.
- `app/` is the desktop executable: command line, file and network I/O (it
  reads files and hands their texts to the library), the
  serializable copies of the snapshot types, and the floating-point threat
  scoring (positions and scores are carried by the library as `f32` bit
  patterns).
- `tests/` exercises the library.
