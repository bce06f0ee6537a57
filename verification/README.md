# riceforge

A dotfile ("rice") manager for Linux window managers, with its core logic
written in Verus and proved against its contracts.

- `src/` — the verified library: the registry index and its search, the
  installed-rices database, deploy plans (which files become symlinks in the
  home directory, which existing files are backed up first), backups and
  their restoration, post-install pipelines, pacman packages, git commands,
  registry validation and index building, path and text handling, and the
  state machines behind the command line and the desktop interface.
  Laws that relate several operations (restoring a backup puts every backed
  up file back; removing a freshly deployed rice deletes every link; adding
  then getting a record gives it back; ...) are public proof functions.
- `app/` — the `riceforge` program: argument parsing, files, processes,
  JSON/TOML (de)serialisation, and the registry maintainers' commands
  (`riceforge registry validate|build|update-stars`).
- `tests/` — tests of the library on concrete values.

Calls into outside crates (`chrono`, `dirs`) and a few standard-library
functions whose results the library does not restate (the system clock,
Unicode case mapping and character classes) sit behind small trusted
wrappers whose doc comments say what is assumed of them. Functions that read
the environment or the clock have companions that take what was read as an
argument (`Paths::rices_dir_under`, `BackupManager::begin_at`, ...), with
exact contracts.
