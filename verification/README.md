# rvpacker_txt

Verified core of a toolkit that extracts the text of RPG Maker games
(XP, VX, VX Ace, MV/MZ) into translation files and writes translations back.

- `src/` is the library, verified with Verus: file classification, modes and
  flags with their byte encodings, line splitting, decimal numbers, the text
  form of `Scripts` files (with a proof that reading it back gives the
  numbers and names, and the code with `\r\n` turned into `\n` and a final
  line feed), file hashes, the settings of readers, writers and purgers, and
  the JSON form of data files through `marshal-rs` and `serde_json`, and the
  text form of `Scripts` data files (decoded with `flate2`).
- No extraction, write-back or purge run over a game's files is included,
  and `Scripts` text is not turned back into a data file.
- `tests/` exercises the library on concrete values.
- `app/` holds what stays outside verification: serde forms of the library's
  types, an error type with messages, and hashing file contents with `gxhash`.
