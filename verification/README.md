# velo_hub

A local gateway that accepts OpenAI-compatible chat requests and routes them to
several LLM providers (OpenAI, Anthropic, Gemini, custom endpoints), with
session affinity, model redirects, priority and weighted load balancing,
circuit breaking, rate limiting and request/response format conversion.

## Layout

- `src/` — the verified library (Verus). Every function carries a contract;
  the laws of the library are public proof functions.
  - `router/` — load balancer, circuit breaker and the backend selection of
    the request router, with the retry bookkeeping.
  - `limiter/` — token bucket (requests per minute), sliding windows (token
    quotas per 5 hours, week and month) and the combined rate limiter.
  - `converter.rs`, `server.rs`, `json.rs` — format conversion between the
    OpenAI, Anthropic and Gemini wire formats, and streaming chunks.
  - `session.rs` — sessions in memory and their decision chains.
  - `config.rs`, `logging.rs`, `log_entries.rs` — configuration with
    environment overrides, log levels, log line parsing and filtering.
  - `crypto.rs` — AES-256-GCM encryption of API keys, base64 framing.
  - `validation.rs`, `provider.rs`, `error.rs`, `models.rs`, `text.rs`,
    `clock.rs`, `store.rs` — validation, provider-side helpers, errors and
    their HTTP responses, data types and small string and time utilities.
- `tests/` — tests of the library.
- `app/` — the unverified shell: HTTP server (axum), SQLite storage (sqlx),
  provider HTTP adapters (reqwest), configuration and log files, the system
  keychain, and the request loop that performs the I/O around the library's
  decisions.
