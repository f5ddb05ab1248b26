# sigan

A command-line time tracker. The library under `src/` holds its logic,
verified with Verus; the program under `app/` reads the command line, the
settings and the entry file, calls the library, writes the entry file back
and prints.

## Library

- `time`: points in time with the offset of the local zone.
- `models`: time entries, filters and calendar periods.
- `storage`: the store of entries (a trait with its contract, and a store
  in memory), filters, the stable order by start, entry file formats.
- `service`: starting, stopping, listing, deleting and editing entries.
- `datetime`: reading typed times of day; moving a stop time back to the
  day of its start.
- `config`, `cli`, `editor`: settings, auto-tag rules, command-line
  overrides and the editor settings.
- `output`: output options, durations, colors, labels and widths, the rows
  and cells of listings and records, the tables drawn from them, and the
  plain-text forms of entries.
- `laws`: properties that hold across operations, proved for every store.

Calls into `chrono`, `regex`, `uuid`, `dirs`, `toml`, `tabled` and the standard
library that the logic needs stand behind small trusted functions whose
doc comments say what their contracts claim.

## Program

`app/` parses arguments with `clap`, reads and writes TOML, YAML and JSON
files with `serde`, runs the editor on a temporary file between the
library's `entry_for_edit` and `store_edited`, and prints.
