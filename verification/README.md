# photo_exit

A photo EXIF tool: view, edit, clear and copy the EXIF fields of photos,
check a file's extension against its bytes, check and repair damaged JPEG
files, compare two photos' EXIF, rename photos after their EXIF, and write
GPS positions from a GPX track by the time each photo was taken.

The library under `src/` is written in Verus; each public function states
what it returns or changes in its `requires` / `ensures`, and Verus proves
it.

- `model` — tags, values, the field table (`ExifMap`), the text a value is
  shown as and read back from. The table is a vector in insertion order
  with each tag at most once, rather than a hash map: Verus specifies
  `HashMap` only for keys whose hashing and equality it can model, which a
  tag with string fields is not, and a hash map's order of iteration is
  left open, while the panel, the writer and the undo records all follow
  the table's order.
- `exif` — the JPEG writer (building the EXIF payload, splicing it into a
  file, stripping it), the reader (the `exif` crate's fields turned into the
  table, with Chinese tag names), the display formatter, the extension
  check (`image` guesses the format) and the repair checks.
- `session` — the editor state: opening files and folders, moving between
  images, edits with undo, save and reset, bulk clear, copy and paste,
  rename by EXIF.
- `panel`, `compare` — grouping and searching the table; comparing two
  tables.
- `gpx` — reading track points from a GPX document (`quick-xml` events) and
  matching a photo's time to the track (`chrono` for times).
- `tools` — the GPX and repair windows' state.
- `settings`, `actions` — recent files and folders; keyboard shortcuts and
  dropped files.
- `text` — decimal and hexadecimal text, ordering and trimming of strings.

`app/` is a command-line front end: it reads and writes files, keeps the
settings on disk (serde), and renders the values that need floating point.

The proof functions named `law_*` state properties that span several
operations: undo reverts an edit, a table has no pending changes exactly
when it equals the file's, pasting sets the copied fields, a parsed track is
in time order, a photo matches the nearest track point and only one within
five minutes, and how a value's displayed text reads back.
