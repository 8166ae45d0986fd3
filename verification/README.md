# agent_runtime

The rules by which an editor runs agents and the context servers (MCP servers)
they use, written in Verus: each rule is executable Rust with a contract that is
proved.

- `src/` is the library. It decides; it never waits, reads a file or starts a
  process. Where something has to be waited for, a type holds how far things
  have come, says what to do next, and takes what came of it.
  - `agent_connection_store`: connections to agents, and how restarts are spaced
    out when an agent keeps failing.
  - `context_server`, `context_server_registry`, `context_server_tool`,
    `instructions`: context servers, what they offer, and how their tools are
    called.
  - `stdio_transport`: the loops that serve a server through its standard input
    and output.
  - `process`: child processes that do not outlive their owner.
  - `editable_context`, `buffer`: excerpts of what is likely to be edited next.
  - `json`, `tool_content`: what is used of `serde_json` and of
    `agent-client-protocol`.
- `app/` does what the library decides: it starts processes, waits, and logs.
- `tests/` runs the library on concrete values.
