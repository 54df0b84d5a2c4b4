# tsm

`tsm` (`traex-session-manager`) is a terminal UI for listing and managing the
sessions of the traex CLI. This crate is written in Verus: the library under
`src/` states its behaviour in `requires` / `ensures` contracts and proves it.

## Layout

- `src/` — the verified library.
  - `text` — characters, whitespace, trimming, decimal text and integer parsing.
  - `calendar` — the proleptic Gregorian calendar and the epoch-to-civil-date
    conversion.
  - `double` — the binary64 rounding behind the `4.3M` token display.
  - `format` — the list's cells: timestamps, token counts, the session text and
    width-aware truncation (display widths come from `unicode-width`).
  - `store` — where the traex state database lives, which generation to open,
    the required schema and the session queries.
  - `app` — the list's state machine: scope, lifecycle, cursor and re-queries.
  - `cli` — `--db` parsing and the key bindings.
  - `view` — what the screen shows: labels, column layout, row and preview texts.
  - `mutate` — the traex commands behind delete / archive / unarchive and how
    their results are read.
  - `rename` — title normalisation and the outcome of a rename.
  - `version`, `update` — release versions and the decisions of `tsm self-update`.
- `app/` — the executable: terminal, database connections, child processes and
  threads, driving the library.
- `tests/` — tests of the library.

## Usage

```sh
tsm                      # current project's active sessions
tsm --db <path>          # use a specific state database
tsm self-update [--check]
tsm --version
```
