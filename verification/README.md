# iphone_call_export

Reads local iPhone Finder backups and exports the call history as CSV.

- `src/` is the verified library: the keybag's type-length-value format, the
  key hierarchy of encrypted backups (PBKDF2 passcode key, RFC 3394 key
  unwrapping, class, manifest and file keys), AES-256-CBC decoders that decide
  what to write while a file is read block by block, the keyed-archive file
  metadata, table selection by name and the rows of the export.
  `src/primitives.rs` holds the outside primitives (AES, PBKDF2, property-list
  parsing, zeroizing key buffers) whose contracts are trusted.
- `app/` is the command-line program around it: finding the backup folder,
  reading files, querying the SQLite databases and writing the CSV file.
- `tests/` runs the library, including published AES, RFC 3394 and
  key-derivation vectors.
