# pocketflow

A workflow framework whose decision logic is verified with Verus: flow state
machines, the simple and advanced flow engines, the plan executor, plan and
reasoning parsers, multi-agent coordination, streaming scripts, agent and
cognitive memory, and the MCP registries.

Layout:

- `src/` — the verified library. The flow engines and the plan executor are
  written as state machines: a caller asks for the next action, performs it
  (runs a node, calls a tool, sleeps) and reports the outcome back. Calls into
  `serde_json`, `regex`, `jsonschema`, `uuid` and `chrono` sit behind small
  trusted wrappers whose contracts state what those crates document.
- `app/` — the asynchronous runtime around the library: the JSON context,
  async nodes, the loops that drive the engines, MCP clients over
  `ultrafast-mcp`, streaming over `tokio` channels, and the agent and
  cognitive types that carry floating-point values.
- `tests/` — tests of the library.
