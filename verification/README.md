# madrpc

The verified core of MaDRPC, a distributed JSON-RPC system in which an
orchestrator balances calls over compute nodes.

- `src/` is the library, verified with Verus: the round-robin load balancer
  with circuit breakers, health-check decisions, the orchestrator's retry
  logic, metrics bookkeeping (counters, latency percentiles, clean-up of stale
  entries), message framing, authentication, protocol values, client-side
  classification of failures, connection-pool bookkeeping, the rate
  limiter's table of per-client buckets and the texts of the live monitor.
- `app/` is the `madrpc` command around it: HTTP and TCP servers and clients,
  the health-check timer, the token arithmetic of rate limiting, JSON
  encoding and the terminal UI.
- `tests/` exercises the library.

## Design notes

The library holds no global or shared mutable state, so a few things that
could be process-wide are values owned by their users:

- Request identifiers come from a `RequestIdGenerator` passed to
  `generate_request_id` and `Request::new`; identifiers are distinct per
  generator.
- The strictly increasing millisecond clock is a `MonotonicClock` owned by
  each metrics registry.
- The metrics collectors own their `MetricsRegistry` (`with_registry` takes it
  by value); the application shares a collector behind its own lock.
- Backoff factors (retries and circuit breakers) are whole numbers, so every
  delay is an exact integer.
