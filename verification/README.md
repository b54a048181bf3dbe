# proofbound_adapter

The checks and decisions of the Proofbound evidence adapters (Charon/Aeneas,
Kani, Lean, Node/Vitest and the test-runner adapter), written in Verus with
their behaviour stated as `requires`/`ensures` contracts and proved.

- `src/` is the verified library. Each adapter has modules of its own:
  Aeneas (`aeneas`, `translation`, `generated`), Kani (`kani`), Lean
  (`lean`, `audit`, `artifact`, `wire`, `lean_scan`), Node (`node`, `npm`,
  `vitest`) and the test runners (`testing`, `test_unit`, `pytest`, `cargo`,
  `runner`, `generator_changes`). Five runs are step functions from state
  and event to next state and action: a Charon/Aeneas translation
  (`session`), a `cargo-test` evidence run (`rust_session`), a `pytest`
  evidence run (`pytest_session`), a trusted transcription
  (`transcription_session`) and the replay of a registered mutation in a
  baseline and a mutant shadow (`mutation`); `app/drive.rs` and
  `app/mutation.rs` carry them out against real processes and files. Shared pieces live in `text`, `names`, `paths`, `inventory`,
  `warnings`, `normalize`, `files`, `bounded`, `process`, `digest`, `json`,
  `observation` and `protocol`.
- `tests/` exercises the library on concrete inputs.
- `app/` is the process boundary: strict `serde` parsing of tool output into
  the library's types, bounded reads from pipes and files, and the file
  system lookups (bridge files, committed generated trees, tool-reported
  paths) whose results the library then judges.

Calls into `sha2`, `hex`, `semver`, `toml` and a few `std` formatting and
UTF-8 functions go through small trusted wrappers whose contracts say what
the library relies on; everything in `src/` besides them is proved.

Not here: the request boundaries (reading and answering protocol requests,
canonical JSON), the Lean audit's own execution and evidence records, the
Node mutation run, `doctor` beyond reading the Lake version, and the tarball inspection of
`npm pack`. They rest on the
evidence and manifest crates of the project, which this crate does not
have, or are process and file I/O.
