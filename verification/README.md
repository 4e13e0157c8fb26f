# openfang_web_auth

Web authentication for an HTTP API, verified with Verus.

Requests are authenticated by named API tokens, by a legacy single key, or by
the session cookie of a password login. Where none of these is set up, only the
machine itself is served. Failed logins lock an address out.

- `src/` is the library. `web_auth` gathers the pieces (sessions, tokens,
  passwords, the login limiter, reading credentials from requests);
  `middleware` is what is done to every request: authentication, the request
  id, the security headers.
- `tests/` runs the library with the crates it calls.
- `app/` is the axum middleware around it.

Each module states its contracts over views (`Seq<char>`, `Map`, plain
numbers). Functions named `law_*` state what holds across calls. Calls into
other crates stand behind small trusted functions next to their callers; the
doc comment of each says what is taken on trust.

Whatever depends on the clock comes in two forms: one that takes the reading,
with an exact contract, and one that reads the clock and calls it.
