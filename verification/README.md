# hybrid-version

Hybrid Cargo.toml + Git version generation for Rust `build.rs`, with its
logic verified in Verus.

The version is read from the `version = "X.Y.Z"` line of `Cargo.toml`
(with the patch taken from the number of commits since that line changed
when it is `0`), enriched with the Git branch, commit, commit time and the
number of modified lines, and written out as Rust constants (`VERSION`,
`VERSION_MAJOR/MINOR/PATCH`, `BUILD_ID`, `SOURCES_FINGERPRINT`,
`BUILD_FINGERPRINT`), as a build-log row, or as a shell `export` line.

## Layout

- `src/` — the verified library.
  - `text.rs`: Unicode whitespace trimming, line splitting, searching,
    decimal rendering, and the integer reading of `str::parse`.
  - `git.rs`: what the `git` command line prints, interpreted: time zone
    offsets, `--numstat` counts, branch, blame and rev-list output.
  - `ts.rs`: date-times (an instant with its UTC offset), formatted by the
    `time` crate; the local offset comes from `tzdb`.
  - `version.rs`: the version line parser, the search of the Cargo.toml
    blob, the patch rule, and everything rendered from a `Version`.
  - `compiler.rs`, `error.rs`: build type, compiler environment, errors.
- `app/` — what runs processes, reads the environment and writes files,
  calling the library for every decision.
- `tests/` — tests of the library.

The laws that the library proves are public proof functions whose names
start with `law_`.
