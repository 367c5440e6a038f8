# ghostzip

The engine of GhostZip, a space-aware archive extractor, as a Verus library
with its proofs, and the desktop application around it.

- `src/` — the verified library: archive format detection from magic bytes,
  entry-path safety rules, the space-saver extraction order (a stable merge
  sort), the session registry, manifest building, the free-space throttle and
  pause rules, the user's pause/cancel control, the ZIP purge step (size and
  CRC-32 checks before any compressed bytes are released), what a TAR
  extraction does with each entry, when the archive is deleted, the 7-Zip
  listing reader, helper arguments and messages, launch arguments and
  default output folders.
- `app/` — the Tauri application: commands, file and process I/O, events,
  Windows sparse-file calls, and serde copies of the library's types.
- `tests/` — tests of the library run against the real outside crates.
