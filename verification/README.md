# web_server

A bookmark manager: users register and log in, save links with comma-separated
tags, and only the owner of a bookmark may change or delete it.

- `src/` is the library, verified with Verus:
  - `model` — bookmarks, accounts and the forms;
  - `tags` — parsing a tag field (split at commas, trim, drop empty pieces);
  - `catalog` — building the bookmark list, with tags, from table rows;
  - `sql` — the tag statements, one placeholder per tag;
  - `paths` — decimal numbers and bookmark addresses;
  - `password` — Argon2 hashes in PHC form (through the `argon2` crate);
  - `web` — answers, pages, and the commands and events of a request;
  - `flows`, `accounts` — each request as a machine from state and event to
    the next state and command, with the laws of access proved over them.
- `app/` is the server around it: axum routes, sessions (axum-login,
  tower-sessions), SQLite through sqlx, minijinja templates. Each handler runs
  one of the library's machines, carrying out its commands.
- `tests/` exercise the library on concrete values.
