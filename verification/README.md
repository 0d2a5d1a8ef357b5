# kikan

The verified core of the kikan platform and the Mokumo shop server, written
in Verus. `src/` holds the logic with its contracts and laws; `app/` holds
the HTTP, socket, SMTP and serialization adapters around it; `tests/` runs
the library on concrete values.

Modules of `src/`:

- `slug` — profile slugs: validation, derivation from display names.
- `setup` — the demo/production mode and its text form.
- `calendar` — civil dates of Unix day numbers and their rendering.
- `cookie` — the session cookie's `Path=/` invariant.
- `data_plane` — forwarded-header trust, session-cookie flags, port walk.
- `spa` — SPA cache policy and what the embedded bundle serves.
- `backup` — backup versions, newest-first listings, RFC 3339 times.
- `diagnostics` — the `diagnose` summaries.
- `mail` — addresses, message assembly, SMTP settings, capturing mailer.
- `events` — broadcast fanout.
- `scorecard` — the PR scorecard and its command-line decisions.
- `server`, `tenancy`, `socket`, `db`, `migrations`, `shop` — paths,
  messages and SQL of the server and its databases.
- `text` — character-level helpers with their specifications.
