# mra

Multi-agent runtime: headless agents that call language models and tools, run
under supervision, and stay within token budgets.

- `src/` holds the rules, written and proved in Verus: budgets, restart decisions
  and backoff, the life of supervised children, chats with history and roles, tool
  loops, file edits, paths of sandboxes, manifests of WASM tools, requests to and
  replies from the model provider, and the answers of the command line and HTTP
  interfaces. Each function states in its contract what it returns; what holds
  across functions is stated in the `law_...` proof functions.
- `tests/` runs the rules on concrete values.
- `app/` is the program around them: tokio tasks, files, processes, HTTP, Wasmtime.

The rules take time as nanoseconds on a clock that the caller owns, and JSON as
compact text. What the library takes on trust are the wrappers in `src/ids.rs`
(`uuid`) and `src/json.rs` (`serde_json`, `toml`); each says what it claims.
