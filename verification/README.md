# cmem_server

The server of cmem-sync: accounts, machines, projects, observation sync,
project sharing and forking, and an admin API, web UI and command line.

- `src/` is the verified library. Each module holds the rules of one part of
  the server with their contracts and laws: access levels (`permissions`),
  project identification (`identification`), sync batches and cursors
  (`sync`), shares (`sharing`), forks (`fork`), the admin rules (`admin`),
  request credentials and cookies (`auth`, `cookies`, `csrf`), client
  addresses (`ip`), localisation (`i18n`), exports (`export`), pages
  (`pages`), configuration (`config`), tokens and passwords (`tokens`,
  `crypto`, `password`, `jwt`). Calls into `sha2`, `hex`, `rand`, `nanoid`,
  `argon2`, `ipnet`, `serde_json`, `chrono`, `csv`, `zip`, `flate2` and
  `jsonwebtoken` stand
  behind small trusted wrappers whose contracts say what those crates do.
- `app/` is the program around it: the axum routes and handlers, the SQLite
  queries, the admin command line and the HTML of the admin
  pages. Handlers read what the library's rules need from the database, ask
  the library, and carry out what it decided.
- `tests/` exercises the library on concrete values.

The server reads its SQL migrations from `./migrations` and the admin UI's
message tables from `./i18n/<lang>.json`.
