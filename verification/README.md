# movo_core

The core of a client for an online film catalogue: it reads the provider's
pages and replies (catalog, search, title pages, episodes, streams, comments,
the account's history and favourites), decides what follows from them
(session cookies and stored sessions, the proof-of-work page the provider
may put in front of the site, which stream host to play from), and keeps the
small per-account state a front end needs (watch history, recent searches,
seen notifications, settings).

- `src/` is the library, written in Verus: every function carries a
  contract and is verified. Calls into outside crates (`scraper`, `regex`,
  `url`, `serde_json`, `base64`, `sha2`, `hex`) stand behind
  small wrappers whose contracts say what those crates do.
- `tests/` runs the library on concrete pages and values.
- `app/` is the plain Rust around it: HTTP through `reqwest`, files and the
  system keyring, the async client that performs each request and hands the
  reply to the library, and the Android bridge.
