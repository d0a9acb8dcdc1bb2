# cargo-sane

A Cargo subcommand that checks the dependencies of a manifest (or of a whole
workspace) against crates.io and rewrites their versions in `Cargo.toml`.

## Layout

- `src/` — the library, written in Verus and verified:
  - `text.rs`: character-level string helpers and their specifications;
  - `version.rs`: semantic versions (parsed and ordered by the `semver`
    crate) and the reading of a version out of a requirement such as `^1.2`;
  - `version_edit.rs`: the grammar of a dependency entry in manifest text and
    the in-place edit of its version, with the proof that the edited text
    reads back the new version;
  - `dependency.rs`, `manifest.rs`, `workspace.rs`: the manifest model,
    workspace roots and inheritance of package fields and dependencies;
  - `checker.rs`, `crates_io.rs`: what is looked up for each dependency, and
    the reading of crates.io answers;
  - `updater.rs`, `commands.rs`: pending manifest edits, workspace-wide
    aggregation, grouping of edits per manifest, and the labels shown.
- `app/` — the command-line program: argument parsing, file system and
  network access, TOML and JSON decoding, progress bars and prompts.
- `tests/` — tests of the library.
