# medio

A media file manager — scan, identify, scrape, rename, deduplicate and
organize movies, shows, music and books — whose decision logic is a library
verified with Verus.

## Layout

- `src/` — the verified library. Every function states its behaviour in
  `requires`/`ensures` over mathematical models (`Seq`, `Set`, `Map`,
  `nat`) and Verus proves it. Modules:
  - `text`, `paths` — character-level text and path operations;
  - `identify`, `context` — file-name parsing and title inference from
    directories;
  - `media`, `types`, `config` — the records and settings;
  - `hashing`, `dedup` — duplicate grouping and keep decisions;
  - `scraper`, `subtitle`, `nfo` — scrape queries, the fallback chain,
    identity resolution, subtitle evidence, NFO writing and reading;
  - `rename`, `organize`, `execute`, `report` — plans, the steps that carry
    them out, and what is reported;
  - `tui` — the state machine of the terminal interface;
  - `regex_calls` — the calls into `regex`, behind trusted wrappers.
- `tests/` — tests of the library on concrete values.
- `app/` — the command-line program around the library: argument parsing,
  disk and network I/O, probes of media files, the cache, the scores that
  weigh floating-point confidences, and the terminal drawing.

## Checking

The library is checked by Verus (`src/lib.rs` is the crate root); the
tests and the program build with the usual Cargo toolchain.
