# file_commander

A dual-pane file manager whose core is verified with Verus.

- `src/` is the library, with each function's behaviour stated in
  `requires`/`ensures` and proved:
  - `commander`: the application state and `FileCommander::update`, which
    takes a user action or the answer of finished outside work and returns
    the next outside work to do (listing, copying, reading, zipping, ...);
  - `model`: the state of one panel (search, sort order, cursor, status
    line, folder name suggestions) and the labels of its entries;
  - `fs`, `archive`, `paths`: listing order, search, and where copies,
    moves, renames and archive entries land;
  - `hash`, `digest`: the digest report of a file;
  - `registration`: offline registration codes;
  - `text`, `sort`: character-level helpers and a verified stable sort.
- `app/` is the window (iced), the event loop and the file-system work the
  library asks for.
- `tests/` runs the library on concrete values.

Path syntax differs between platforms, so what `std::path` answers is
stated where every platform agrees: for names that no platform splits or
reads as a drive, for clean paths (such names joined by single `/`, with or
without a leading `/`, and for a parent or a comparison also with one
trailing `/`), for joins of a relative name onto such a base, and for a
name rooted at `/`, which replaces such a base. Local times are stated up
to the machine's time zone offset.

Laws that hold across calls (for example that every event keeps each
panel's selection on one of its entries, or that a registration body made
of a name without `|` and the signature of its sanitized form is accepted)
are public proof functions next to the code they are about.
