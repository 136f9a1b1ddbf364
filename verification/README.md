# ganymede

Profile synchronisation for a guide reader, verified with Verus.

A profile holds how far its owner is in each guide. The server keeps a copy of it, and both sides
can change while they are apart. The library says how the two are brought together without losing
a checkbox that was ticked locally.

- `src/` is the verified library: timestamps and steps as the server writes them (`timestamp`,
  `steps`, `text`), the merge of the server's profiles into the local configuration (`merge`,
  `merge_laws`), the upload of what the server never acknowledged (`push`, `push_laws`, `upload`),
  what is sent and what the replies mean (`payload`, `exchange`, `error`), the procedures as steps
  between one piece of outside work and the next (`procedure`, `changes`, `sync`, `sync_laws`), and
  the general procedures (`base`).
- `app/` does the outside work: HTTP, JSON, the configuration file, the desktop shell.
- `tests/` runs the library on concrete values.
