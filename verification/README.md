# ragent

The verified core of Ragent, an AI agent chat platform (HTTP + WebSocket
server, Ollama-backed agent, calculator / web-search / code-sandbox tools).

- `src/` — the library, verified with Verus:
  - `calculator` — tokenizer and recursive-descent parser of arithmetic
    expressions, with proofs that the tokens spell the input and that
    parsing and printing are inverse on the parser's trees;
  - `spacing` — proof that spaces, tabs and newlines that split no number
    leave the parser's outcome unchanged but for where literals stand (the
    floating-point evaluation of the trees is in `app/`, unverified);
  - `auth` — Argon2 password hashing and checking; JWT access and refresh
    tokens: their claims, signing and checking, with round-trip laws;
  - `api` — the rules of registration, login, refresh and the chat routes;
  - `ws_events` — socket events and the socket state machine, with a law
    over whole connections;
  - `agent`, `tools`, `web_search`, `code_sandbox` — the agent's request
    shaping and the tools' decisions;
  - `models`, `error`, `text` — data models, errors, string helpers.
- `app/` — the server around it: axum routes, database access, the
  clock read for tokens, the Ollama client, process execution for the sandbox, and the
  floating-point evaluation of calculator trees.
- `tests/` — tests of the library.
