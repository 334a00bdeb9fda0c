# remoteapi-test

A small HTTP API (`/api/v1/hello`, `/api/v1/show_hello`, `/api/v2/hello`)
behind Digest access authentication, with its core proved in Verus.

- `src/` — the verified library: the `Authorization: Digest` parser, the
  credential and nonce state with the check of a client's response, the
  query-string check of version 2, the greeting messages and the error codes.
  `src/laws.rs` states what holds across calls (nonces are single-use, users
  with the right password are let in, the query check refuses the first
  unknown name).
- `app/` — the actix-web server: reading `credentials.json`, the middleware,
  the handlers and the JSON bodies.
- `tests/` — tests of the library.
