# gitpage

A small self-hosted git platform: repositories over HTTP, a staging file
manager that commits into them, Pages sites published from a branch, hosted
apps run per repository (as local processes or in per-user Docker
containers), issues, pull requests, organizations and access settings.

## Layout

- `src/` — the library, verified with Verus: every decision the server makes
  (access rules, request defaults, paths on disk, routing, the CGI answer of
  `git http-backend`, Markdown with math, listings, hosting plans, the app
  table and port allocation, container settings, secrets and tokens, the
  example todo app's request handling). Calls into outside crates
  (`pulldown-cmark`, `serde_json`, `aes-gcm`, `sha2`, `hex`, `argon2`, `rand`,
  `mime_guess`, `chrono`) sit behind small trusted wrappers whose contracts
  are documented where they are declared.
- `app/` — the server around it: configuration, the SQLite store, the axum
  router and handlers, git2 and `git` processes, Docker through bollard, app
  processes, and the example apps (`gitpage todo-demo`, `gitpage hello-demo`).
- `tests/` — tests of the library on concrete values.
