# qfinder

The core of a cross-platform file manager and previewer, written in Verus.
The functions under `src/` carry contracts that Verus proves, except a few
small trusted wrappers around `std`, `encoding_rs`, `chardetng` and `uuid`
(marked `external_body`, each saying what it assumes) and the clock reading
`now_ms`, of which nothing can be promised; `app/` is the desktop shell
(Tauri commands, file system, processes) that feeds the library plain
values and performs the actions it decides.

## Layout

- `src/error.rs`: the errors of file operations, their codes and messages.
- `src/task.rs`: the single background task (at most one runs at a time).
- `src/ops.rs`: the checks before rename, copy, move and delete, the steps
  of each conflict strategy, and what a merge does with each entry.
- `src/fs_tree.rs`: which directory entries are listed, and their order.
- `src/platform.rs`: hidden entries and the roots of the file tree.
- `src/preview.rs`: how each file is previewed, size limits, directory
  previews, `du` output, text and spreadsheet previews.
- `src/encoding.rs`: choosing the encoding of a text preview.
- `src/xml.rs`, `src/epub.rs`: the small XML scanner and the EPUB cover
  lookup.
- `src/convert.rs`: rendering previews with LibreOffice or Quick Look, as a
  state machine whose actions the shell performs.
- `src/cache.rs`, `src/numfmt.rs`, `src/text.rs`, `src/paths.rs`: cache keys,
  number formatting, text helpers, and the parts of `std::path` in use.
- `tests/`: tests of the library on concrete values.
