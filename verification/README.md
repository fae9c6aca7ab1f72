# palcommand

The verified core of PAL·COMMAND, a desktop control tower for a rented Palworld
dedicated server: backups pushed to a private git repository, live control over the
Palworld REST API (with RCON as fallback), and a round-trip-safe editor for
`PalWorldSettings.ini`.

## Layout

- `src/` — the library, written in Verus and checked by it. The calls into `keyring`,
  `reqwest`, `tar`, `flate2`, `chrono` and a few std conversions sit behind small
  trusted wrappers whose contracts say what those crates document; everything above
  them is verified. Where an outside answer decides an outcome (the keychain, an HTTP
  reply), the contract says what holds whatever came back, and a separate function
  with an exact contract says what is done with each answer.
  - `palconfig.rs`, `palconfig_laws.rs` — the settings-file parser, updates and writer,
    and what they promise together (a written file reads back as written; updates only
    touch the keys they name).
  - `backup.rs`, `redaction_laws.rs` — secret redaction and restore, the integrity and
    retention rules, and each decision a backup or restore run takes.
  - `archive.rs` — world snapshots as `.tar.gz`, built and read with `tar` and `flate2`.
  - `savecheck.rs` — the `PlZ` save-file check.
  - `rcon.rs`, `rest.rs`, `sftp.rs`, `gitrepo.rs` — packet framing, URLs, command lines,
    batches, the order of a commit (stage, check the status, commit) and the messages for
    each failure.
  - `flows.rs`, `backup_flow.rs` — the long-running commands as step machines: saving
    the settings, the guarded restart, restoring a snapshot, pulling the server's files
    and a whole backup run. Each step takes what the last action gave and names the next.
  - `commands.rs` — the guards of a safe restart, the live-channel choice, history and
    config-change records.
  - `config_store.rs` — settings defaults and the OS keychain.
  - `text.rs`, `paths.rs`, `ordering.rs` — text, path and ordering helpers.
- `tests/` — tests on concrete values.
- `app/` — the I/O shell: files, processes, sockets, HTTP and timers. It runs the
  library's step machines, performing each action they name, and leaves the decisions to
  them; what it does itself is formatting sizes for messages (floating point) and
  reading the files' modification times.
