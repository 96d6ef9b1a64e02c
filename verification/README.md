# typesafe-jev-sdk

A client library for the TypeSafe AI "Jev" service, written in Verus.

- `src/` is the verified library: questions (`question.rs`), requests
  (`request.rs`), the request builder and its completeness check
  (`builder.rs`), token usage and budgets (`usage.rs`), the settings of an
  HTTP client (`client.rs`), a string-keyed map with unique keys
  (`string_map.rs`), and the properties that relate these operations
  (`laws.rs`).
- `app/` holds what cannot be verified: the JSON shapes of the types (serde),
  the answers (which carry floating-point numbers), and the HTTP client itself
  (reqwest, environment variables, async requests).
- `tests/` exercises the library on concrete values.
