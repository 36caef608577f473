# pdf_viewer

The rules of a browser PDF reader that pins sticky notes to pages, written
in Verus and proved against their contracts.

- `src/` — the verified library: note colours (`models`), themes and their
  stored setting (`theme`), the note list and its edits and filters
  (`notes`), page navigation and the save run (`viewer`), the requests sent
  to the notes service (`api`), and decimal text and page-number parsing
  (`text`).
- `app/` — the Leptos program around it: components, browser storage, the
  pdf.js bridge, HTTP requests, and the JSON form of notes.
- `tests/` — tests of the library on concrete values.
