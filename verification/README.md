# easytier_web

Verified core of the EasyTier admin panel and of the agent's whitelist sync
daemon, written with Verus.

- `src/` — the library, every function proved against its contract:
  - `hex` — hex decoding of report signatures;
  - `peers` — reported peers, the peer store, HMAC-SHA256 report signatures;
  - `traffic` — per-(reporter, ip) counter snapshots, traffic charges,
    cool-down, quota periods, usage keys and limits, quota charging steps;
  - `whitelist` — whitelist listing, the public export for agents, unbinding;
  - `devices` — device list entries and block planning;
  - `auth` — admin settings, password hashes, login, signing and checking
    admin tokens (HS256 JWT), dashboard;
  - `accounts` — network-config filters and the resolution of client tokens
    to users (user names, guest tokens, network secrets);
  - `guests`, `agents` — new guest tokens, network secrets and agent nodes;
  - `sync` — what the sync daemon does with the admin's answer;
  - `assets` — serving the embedded admin UI;
  - `text` — string helpers.
- `tests/` — tests of the library on concrete values.
- `app/` — HTTP handlers (axum), SQLite access (sea-orm), migrations, the
  sync daemon's main loop and the JSON forms of the library's types.
