# moeb

`moeb` is a declarative harness kernel: it drives an AI model through a
conversation in which the model may call tools, keeps the conversation within
budget, stores its configuration and credentials, and serves the same loop
over MCP (stdio or HTTP with OAuth 2.1 and PKCE).

## Layout

- `src/` is the verified library. Its functions carry contracts that Verus
  proves, except a handful of small wrappers marked
  `#[verifier::external_body]` around outside code (`String::push`,
  `char::is_alphanumeric`, the system clock, chrono's RFC 3339 formatting,
  random UUIDs, SHA-256 and base64): their contracts are trusted, not proved,
  and each says in its doc comment what it claims of the code it calls.
  - `agent` — the agent loop as a state machine (turn budget, text-answer
    streaks, file-write gating) and its laws;
  - `compaction` — summarising old tool results while keeping the most recent
    turns, with its laws (keep window, only tool results change, idempotence);
  - `wire` — the request bodies for Anthropic, OpenAI and Gemini (with tools
    and prompt caching) and the parsing of
    provider answers;
  - `adapters`, `retry` — adapter selection, the decision taken on each HTTP
    attempt, and jittered exponential back-off;
  - `config`, `settings`, `numbers` — configuration values, the secrets store
    and its text format, and the `configure` / `use` / `adapter` commands;
  - `oauth`, `mcp` — the OAuth store (codes, PKCE, tokens, expiry) and the MCP
    session bookkeeping and routing;
  - `spec_parser`, `prompt`, `project`, `replay`, `routing`, `outputs`,
    `redact`, `review`, `attempts` — front matter and section checks, prompt rendering,
    specification lookup, trace replay, GitHub signal routing, fallback review
    signals, credential redaction and the attempts of `moeb spec`;
  - `str_map`, `text`, `messages`, `system` — shared models and helpers.
- `app/` is the command-line program around the library: argument parsing,
  files, HTTP, the terminal and the MCP servers.
- `tests/` exercises the library on concrete values.
