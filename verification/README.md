# asc_mcp

The verified core of an MCP server for the Apple App Store Connect API, written in Verus.

- `src/auth.rs` — ES256 JWT credentials with a 15-minute token cache (`Credentials::token_at`
  decides from explicit clock readings; `Credentials::token` reads the clocks).
- `src/client.rs` — the rate-limit retry policy (`RetryState`), the `Retry-After` parser,
  success statuses, `ApiError` and the page collector used for `links.next` pagination.
- `src/client_endpoints.rs` — endpoint paths, the sales report query, the JSON string escaper
  and the body that starts a build, and the conversion of a downloaded report into rows.
- `src/models/` — JSON:API envelopes, the CI status enums (read and written by API name), the
  plain attribute types of apps, artifacts and git references, and the gzip-compressed TSV
  sales report parser (fields matched by header name).
- `app/` — the stdio MCP server: HTTP transport (reqwest/tokio), serde shapes of the API
  documents, the rmcp tool router and the program entry point.

Calls into `jsonwebtoken`, `chrono`, `flate2` and `csv` stand behind small
trusted wrappers whose contracts are documented next to them.
