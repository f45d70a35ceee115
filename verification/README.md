# mangameeya

The core of a manga and comic book viewer, written in Verus: every function
in `src/` carries a contract that Verus proves.

- `src/` — the library: archive listing (folders, ZIP, TAR/TAR.GZ) with
  natural ordering of page names; image buffers, decoding and the filters
  that compute exactly in integers (crop, flip, rotate, grayscale,
  nearest-neighbour and halftone resizing, pipelines); the reading state
  (bookmarks, history, playlists, tables of contents, page cache, texture
  cache); navigation, page splitting, key bindings and the viewer's
  decisions on each key press; settings and their import from MangaMeeya
  INI files; translations; plugin bookkeeping (metadata, permissions,
  enabled flags, saved settings), the archive-format, payment and content
  source plugins, and the download queue.
- `tests/` — tests of the library, run against the compiled crate.
- `app/` — a terminal front end around the library: reading books from
  disk, loading and saving settings and reading state, the RAR and 7z
  readers, and the parts that compute in floating point (resampling with
  fractional weights, sharpening, scrolling, the loupe, the slideshow timer,
  mouse gestures).
