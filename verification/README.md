# media_administrator

The rules of a local media library, written and proved in Verus: how file
names, directories and the reports of `ffprobe` become titles, artists, series
and groups, how directories are scanned step by step, and what is stored,
searched and shown.

## Layout

`src/` is the library. Everything in it is verified.

- `text`, `order`: characters, words, numbers and sorted lists of texts.
- `unicode`, `pattern`, `json`, `paths`: what is taken on trust of the standard
  library's text functions and paths, of `regex` and of `serde_json`, and the
  rules on path keys and extensions.
- `titles`, `episodes`, `directories`, `music`, `media`, `probe`: what names,
  directories and streams tell.
- `analysis`: a file as it goes into the index.
- `rules`, `groups`, `grouping`, `library`, `separation`, `totals`: the library
  as it is shown, with its directories, groups and rules, and what holds of it
  as a whole.
- `config`, `scan`, `report`: a scan, from its configuration to its summary.
- `query`, `statements`, `store`, `schema`, `tables`: requests, the statements
  for the database, and what they do to its tables.

Paths are texts, and durations are the bits of floating-point numbers: the file
system and floating-point arithmetic belong to the program around the library.

`app/` is that program: the Tauri window, SQLite, the file system and the calls
of `ffprobe`. It does what the library asks for and hands back what came of it.

`tests/` holds the tests. Those of the database run the library's statements on
SQLite in memory.
