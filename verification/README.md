# geoforge

The task-processing core of GeoForge 3D (OSGB → 3D Tiles conversion,
top-level rebuild, KTX2 texture handling, validation and commit), written
in Verus: the decisions of every stage carry `requires` / `ensures`
contracts that the verifier proves.

## Layout

- `src/` — the verified library.
  - `text`, `numbers`, `bytes`: character, number and byte helpers with
    their specifications (`str::parse`, trimming, UTF-8 boundaries).
  - `patterns`, `geo`: the regular expressions (through the `regex`
    crate) and the CRS rules built on them.
  - `path_policy`, `commit`, `ids`: path safety (no overlap, no overwrite),
    temporary-directory ownership, checkpoints and commit, task and
    artifact identifiers.
  - `scan`, `model`, `rebuild`, `convert`, `texture`, `texture_ktx2`,
    `gltf_textures`, `gltf_doc`, `validation`, `validator`, `validate`,
    `pipeline`, `capabilities`, `util`, `cancel`, `protocol`: the
    processor's stages; `pipeline` also fixes the order in which the stages
    of each operation run (validation before commit, cancel checkpoints).
    `gltf_doc` reads glTF / GLB documents, plans which
    images are encoded and rewrites the document and its buffer.
  - `json`: JSON values (numbers kept as text) with the `serde_json` parse
    and serialization calls.
  - `task_store`, `process_manager`, `desktop`, `bridge`: the desktop
    shell's decisions — task records, submission prechecks (no processor
    means an explicit failure) and where the processor is looked for,
    processor supervision, resource server and the follower of tasks run
    elsewhere. The desktop shell itself (Tauri) is not part of this crate.
- `tests/` — tests of the library on concrete values.
- `app/` — the `processor` command line: file system, processes, JSON,
  signals; it runs the stages in the order the library gives and asks
  the library for every decision. `app/ktx2.rs` is the
  in-place KTX2 pass over a tileset directory (file walk, `basisu` runs,
  writes).

Laws that relate several functions are public `proof fn`s named
`lemma_*` next to the functions they speak of.
