# Proxy Pulse

A proxy pool manager: it checks proxies on a schedule, scores them, and
serves them through an authenticated HTTP interface with an administration
panel.

## Layout

- `src/` — the `proxy_pulse` library, written in Verus. Its own functions
  carry contracts that Verus proves; the calls into outside crates and std
  (JSON, hashing, bcrypt, the clock, random identifiers, semver, URL
  decoding, case mapping) sit in small `external_body` wrappers whose
  contracts are trusted, not proved:
  - `text` — character-level helpers (decimal numbers, searching, trimming);
  - `updater` — version comparison, the release feed, release naming and
    the update decisions;
  - `config`, `checker` — checker settings and their stored form, check
    scheduling and back-off, answer judgement, anonymity and country
    detection from service answers, score parts;
  - `auth`, `api_keys` — tokens, API keys, passwords, account rules and
    route guards;
  - `api`, `query`, `models`, `sync` — request handling rules, the SQL of
    the listings, statistics rows and subscription bookkeeping;
  - `migration` — schema repair and upgrade decisions;
  - `memory` — the memory report and the `/proc/self/status` reader.
- `tests/` — tests of the library.
- `app/` — the service around the library: the HTTP server (axum), the
  SQLite store (sqlx), the network checks (reqwest), the updater, the
  memory monitor, and the floating-point parts (scores, latency
  histogram, CSV figures).

## Running

`DATABASE_URL` (default `sqlite://proxy_pulse.db?mode=rwc`), `HOST`
(`0.0.0.0`) and `PORT` (`8080`) configure the service; `--demo` makes every
endpoint that changes stored data answer 403, except the first setup,
signing in and signing out. The web pages and their assets are read
from a `static/` directory next to the working directory.

The subscription list reader and fetcher are not part of this build: the
import and sync endpoints are not served, and a new source is stored
without a first sync.
