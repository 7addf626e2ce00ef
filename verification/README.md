# client-core

The core of a client that deploys, upgrades and backs up a set of Docker
services: its decisions are written in Verus and proved against their
contracts; the I/O around them is ordinary Rust.

## Layout

- `src/` — the verified library.
  - `sql_diff/` — reading `CREATE TABLE` scripts and writing the MySQL
    statements that turn one schema into another, with laws on what the
    difference contains (`laws.rs`).
  - `sql_text.rs`, `split.rs`, `text.rs` — scanning SQL text, splitting,
    trimming, decimal numbers.
  - `config_manager.rs` — the settings cache: typed reads, checked updates,
    batches, defaults, statistics, and the rows of automatic upgrade tasks.
  - `container.rs` — the Compose services: parsing `docker compose ps`
    output, restart policies, health and start-up checks, command lines.
  - `downloader.rs`, `hashing.rs`, `api.rs`, `api_config.rs` — resuming
    downloads, hashing files, deciding whether and from where to download,
    the server's URLs.
  - `upgrade.rs` — the upgrade plan and the state machine that runs it,
    with rollback and restart after a failure.
  - `backup.rs`, `database.rs`, `database_manager.rs`, `db.rs` — backup
    names and checks, stored enum texts, retry policy, schema scripts.
  - `config.rs`, `authenticated_client.rs`, `cli_ui.rs`, `client_ui.rs`,
    `error.rs`, `clock.rs`, `json.rs` — configuration, identity rules, the
    desktop front ends' decisions, errors, time and JSON reading.
- `app/` — the I/O around the library: files, processes, HTTP, DuckDB,
  serde types, and the loops that carry out the library's decisions.
- `tests/` — tests of the library on concrete values.
