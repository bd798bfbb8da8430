# webhook_server

A webhook receiving server whose decision logic is verified with Verus.

- `src/` — the verified library:
  - `signature.rs`: GitHub `x-hub-signature-256` checks (HMAC-SHA256 through the
    `hmac`/`sha2` crates, lowercase hex through `hex`);
  - `github.rs`: the checks a GitHub delivery goes through and the responses;
  - `auth.rs`: bearer-token authorization of `/ws` and `/recent-events`;
  - `headers.rs`: reading header values as text;
  - `cache.rs`: the bounded cache of recent events;
  - `sessions.rs`: the registry of connected WebSocket sessions;
  - `session.rs`: a session's answer to each client message;
  - `config.rs`: `PORT` and `MAX_CACHED_EVENTS` with their defaults;
  - `metrics.rs`: the uptime reported as a metric.
- `app/main.rs` — the Actix Web server: routes, actors, environment, clock,
  JSON and Prometheus metrics, calling into the library.
- `tests/` — tests of the library on concrete values.
