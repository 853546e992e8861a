# IronVault

An encrypted archive that stores every block of content once. Files are cut into blocks of one
megabyte; a block is kept compressed under its BLAKE3 digest in a database encrypted by SQLCipher,
and a file is the list of its blocks. A second form keeps a whole vault in one file, sealed by
AES-256-GCM under a key that Argon2id derives from a password.

`src/` is the library, verified with Verus:

- `text`, `paths`, `ident`: texts, paths and identifiers.
- `crypto`, `model`: the sealed payload, and the vault held in memory.
- `digest`, `codec`: BLAKE3 and Zstandard.
- `sql`, `changes`, `db`: the statements for the database, and the reading of its rows.
- `ingest`, `export`: the import of a file block by block; its export, preview and check.
- `tables`, `opening`, `listings`, `search`: what the tables hold, what each change, the opening of a
  database and each query does with them, and what follows for openings, listings and searches.
- `laws`, `runs`, `traces`: what is proved of single operations, of runs of them and of the steps of
  one.
- `display`, `session`, `tasks`: what the window shows, its state, and the outcome of its work.

`app/` holds what the library cannot: the connection to the database, the disk, the background
threads and the GTK window. `tests/` runs the library, also against a real database.

What the database itself does is not proved. The modules on the tables read its SQL: `effect` in
`tables`, `step_taken` in `opening`, `lists_files`, `lists_folders` and `finds_name` in `listings`, and
`like` in `search` say what each statement of the library does or gives. The laws rest on that reading,
and the tests run the same statements on a real database.
