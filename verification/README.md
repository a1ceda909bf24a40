# stackure

The Stackure SDK for Rust: passwordless B2B authentication against the
Stackure API, verified with Verus.

- `src/` is the verified library. It holds input validation, reading cookies,
  query and form fields and headers off a request (`RequestHead`), planning the
  API calls and reading their answers, the retry and deadline policy, and every
  decision of the authentication layer: the sign-in handoff, session
  verification, refusals and logout. Each public function states in its
  contract what it returns. `src/laws.rs` and `src/transport.rs` hold the
  properties that span several functions, proved as proof functions.
- `src/codec.rs` holds the few trusted items: the calls into std, `serde_json`
  and `http` whose contracts Verus takes on trust.
- `app/` is the plain Rust around the library: reading the environment,
  sending requests with hyper, the async client functions, and the tower
  `Layer`/`Service` that runs the library's authentication steps.
- `tests/` runs the library on concrete values.
