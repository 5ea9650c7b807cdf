# cc_switch

The BistroCode side of a desktop switcher for model API providers: which
provider a base URL belongs to and how its balance reply is read, the
BistroCode account, pricing and sign-in services, the usage estimate that
compares official prices with BistroCode's quota, and the adapters that turn
OpenAI Chat Completions and Responses traffic into Anthropic Messages and
back, for whole responses and for event streams.

## Layout

- `src/` — the verified library (Verus).
  - `text.rs` — trimming, prefixes and suffixes, search, replacement, case folding.
  - `json.rs` — the JSON value model, its accessors, and the serde_json calls that read and write JSON text.
  - `decimal.rs` — decimal numbers, with rust_decimal's arithmetic behind it.
  - `balance.rs` — provider detection, base URLs, status answers and reply readers of the balance queries.
  - `account.rs` — the BistroCode account and pricing replies.
  - `auth.rs` — the BistroCode sign-in records, headers and reply judgements.
  - `usage.rs` — model matching, quota estimate, the estimate over a request log, model price checks.
  - `cursor.rs` — request and response conversion between the three API dialects.
  - `framing.rs` — event-stream framing: blocks, lines, fields.
  - `sse.rs` — the stream adapters as state machines, and the laws they keep.
- `tests/` — tests run against the compiled library.
- `app/` — HTTP calls, serde forms of the records, floating-point balances and
  the async stream plumbing around the library.
