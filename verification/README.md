# gads

A Google Ads API MCP server and command-line tool. The logic that decides what is sent
to the API and what is made of its replies is a library verified with Verus; the program
around it does the I/O.

## Layout

- `src/` — the verified library (`gads`):
  - `query.rs` — GAQL query building.
  - `format.rs` — flattening `searchStream` responses into rows, and rows into text.
  - `error.rs` — the error type and the one-line summary of an API error body.
  - `ids.rs` — customer ID validation.
  - `client.rs` — credentials, headers, request URLs and bodies, reading replies.
  - `commands.rs` — the queries and mutate bodies of the subcommands.
  - `cli.rs` — the customer list and tree, the doctor's checks and report.
  - `server.rs` — the logic of the MCP tools.
  - `profile.rs` — the saved profile and where its file lives.
  - `json.rs` — the JSON value type, its model, and the calls into `serde_json`.
  - `text.rs` — string operations shared by the rest.
- `app/` — the program: command-line parsing, HTTP, authentication, the MCP transport
  and file access.
- `tests/` — tests of the library.

## Configuration

The environment variables are those of the Google Ads tooling:
`GOOGLE_ADS_DEVELOPER_TOKEN`, `GOOGLE_ADS_LOGIN_CUSTOMER_ID`,
`GOOGLE_CLOUD_QUOTA_PROJECT`, `GOOGLE_APPLICATION_CREDENTIALS`. The profile lives in
`$GADS_CONFIG_DIR/profile.json`, else `$XDG_CONFIG_HOME/gads/profile.json`, else
`~/.config/gads/profile.json`. The `search` tool's field reference table is read from the
file named by `GADS_GAQL_RESOURCES`.
