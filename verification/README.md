# anki_cli

A command-line tool that manages an Anki collection (decks, note types,
notes, cards, tags, backups) through Anki's Rust backend, with its own logic
verified by Verus.

- `src/` is the verified library: parsing of `NAME=VALUE` field arguments,
  resolution of field names, note field assignment, tag editing (added and
  removed up to ASCII case), the collection path's resolution from the flag,
  the environment and the profile directories, backup names, card queue
  names, previews, the reports every command prints, and every error message.
  `tags.rs`, `fields.rs`, `context.rs` and `common.rs` also hold the proved
  laws of those operations.
- The JSON object of a note's fields is built in `src/` through serde_json's
  order-preserving map (the `preserve_order` feature is required).
- `app/` is the program around it: command-line parsing, the environment and
  the file system, the calls into Anki's backend, and JSON output.
- `tests/` runs the library on concrete values.
