# prek_python

Python hook environments: which interpreter a hook gets, how `uv` is found or
downloaded, and what is retried when dependencies ask for a newer interpreter.

- `src/` is the library. It is verified with Verus, but for eight small functions
  that call outside code and whose contracts are taken as given:
  - `string_of` in `text` and `from_utf8_lossy` in `process` call the standard
    library;
  - `compare_releases`, `parse_version`, `parse_requirement` and
    `requirement_matches` in `version` call `semver`;
  - `find_mentions` in `inferred_retry` calls `regex`;
  - `host_platform` in `uv` reads `target_lexicon`.

  Its modules:
  - `inferred_retry` reads the explanation of a failed resolution and makes a
    constraint of it; `version` and `request` hold what it works on.
  - `python` builds the commands; `install` decides which one follows which
    outcome.
  - `uv` chooses releases and binaries of `uv`.
  - `process`, `paths`, `store`, `env_vars` and `text` are what these share.
  - `retry_laws`, `install_laws` and `uv_laws` state and prove what holds across
    functions.
- `app/` runs processes and talks to files and the network.
- `tests/` runs the library on given values.
