# ccusage loaders

Loads the usage entries that the coding agents Amp, Goose and Hermes record.

- `src/` is the verified library. It decides which entries are kept and in which
  order, what is asked of a SQLite database and what its answers mean, what the
  content fingerprint of a table of sessions is, and what an Amp entry is billed
  for. It does no I/O: each outcome is told to it, and it says what to do next.
- `app/` reads the files and databases and drives the library.
- `tests/` runs the library, with databases in memory.
