# ttlog_view

A terminal viewer for `ttlog` output: the log file, the directory of log
and snapshot files, and the LZ4-compressed crash snapshots.

- `src/` is the library, verified with Verus: the state and key handling of
  the log table, the snapshot table, the level charts, the tab bar and the
  demo dashboard's log view, its key handling and its generated entries;
  the events-per-second series; the cell texts of the
  table rows; which files of the directory are watched; the directory
  summary; bounded snapshot
  decompression; the packed event metadata; and the text formatting of
  sizes, timestamps and durations. Contracts are stated over `Seq`-level
  models of the tables (which rows are shown, in which order) and over the
  exact texts produced.
- `app/` is the terminal program around it: reading files and the clock,
  drawing with ratatui, turning crossterm events into the library's key and
  mouse values, and the serde forms of log lines and snapshots.
- `tests/` exercises the library on concrete values.
