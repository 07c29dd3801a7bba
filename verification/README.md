# agent_harness

A harness for building AI agents, written in Verus: the library under
`src/` is verified, and `app/` holds the runtime around it.

- `src/` — messages and content, model requests and the providers'
  request/response formats (Anthropic, OpenAI), server-sent events, the
  agent run as a state machine with its laws, middlewares and their
  roster, configuration and variable expansion, sandbox paths and
  directory walks, sandbox tools, guardrails, memory, MCP clients,
  skills and subagents.
- `app/` — HTTP calls to the providers, the asynchronous middleware
  chain and agent executor, sandboxes on the local file system,
  configuration files, skill directories and memory extraction.
- `tests/` — tests of the library.
