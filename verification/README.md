# PICLR

PICLR (**PIC**ture **L**eft/**R**ight) sorts large folders of images with two
actions, left and right. Decisions can be queued and applied later, undone,
and reviewed in a queue panel.

The library under `src/` is verified with Verus:

- `domain/` — the session state (images, sort order, cursor, sidebar rows,
  queue, undo history, counters) and every operation on it, each specified as
  a transformation of the abstract state `AppModel`; `domain/properties.rs`
  holds the properties that span operations (undo gives back what a decision
  changed, the queue follows the sort order, the counters agree with the
  images, sorting keeps the current image).
- `fs.rs` — what a directory scan keeps, and the file steps that carry out an
  action and reverse it.
- `web/` — what the page shows (`view`), its markup and updates (`render`),
  what each command does to the session (`commands`) and which file an image
  request reads (`images`).
- `linux_tauri_support.rs` — the checks of the desktop prerequisites.
- `paths.rs`, `text.rs` — strings and paths, with the standard library calls
  they rest on.

`app/` is the program around it: command line, HTTP server, server-sent
events, and the file-system work.
