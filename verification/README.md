# wavepilot

The rules behind WavePilot, a local project manager for music producers:
importing and finding projects, cleaning up DAW backup files, release
checklists, lyrics, settings, and the integer side of loudness analysis.

- `src/` is the library, written in Verus. Every operation is a function with
  a contract: the SQL statements it hands to the store, the decisions it
  takes on what the store and the file system report, and the laws that hold
  across operations (a cleanup keeps the newest backups of each project,
  stored settings read back, an appended checklist item is removed again, ...).
- `tests/` runs the library, including its statements against an in-memory
  SQLite store.
- `app/` is the ordinary Rust around it: the SQLite connection, walking and
  deleting files, WAV decoding and the floating-point loudness measures.
