# qkd_config_extractor

Fills a QKD manager from a configuration, and keeps importing the key files that appear in the
directories that the configuration names.

- `src/` is the library: what is done, in which order, and what comes of it. It is verified with
  Verus and touches no file.
- `app/` does the work that the library asks for: it reads, watches and deletes files, sleeps, and
  talks to the manager.
- `tests/` runs the library on concrete values.

Each import is a machine. It says what it asks for next (`stage` or `next_step`), and takes what
came of it (`advance`), until it has an outcome. Something that it did not ask for changes nothing.
