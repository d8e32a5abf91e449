# synapse

The routing, fallback and accounting logic of an OpenAI-compatible LLM
gateway, written in Verus with its contracts proved.

- `src/` — the verified library:
  - `config` — configuration from an environment map (non-blank variables win over defaults);
  - `error` — gateway errors: codes, HTTP statuses, messages;
  - `routing::table` — alias → ordered fallback legs, kept sorted by alias;
  - `routing::request` — what routing reads of a chat request; lane selection;
  - `routing::executor` — the fallback-chain walk (a step function: leg outcome in, next leg or result out);
  - `routing::chain_laws` — what a whole walk does for every sequence of leg outcomes;
  - `vertex_native` — the native Vertex endpoint, request body and reply handling;
  - `providers::vertex_auth` — the bearer-token cache and what a token request does;
  - `providers::credentials` — which credential each provider needs, and its `gen_ai.system` name;
  - `server` — tenant attribution and request dispatch;
  - `text` — Unicode blankness, decimal integers, string order.
- `app/` — the HTTP server, I/O, async plumbing and serde types around the library.
- `tests/` — tests of the library.
