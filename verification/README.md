# orion_agent_core

The verified core of an agent runtime, written in Verus.

`src/` holds the logic, each function with a `requires`/`ensures` contract
that Verus proves:

- the agent loop's state and its steps (`agent_loop`): requests, recorded
  responses, tool screening, permission denials, tool results, compaction;
- conversations (`conversation`, `compact`): repair of orphaned tool uses,
  cache breakpoints, summaries;
- permissions (`permissions`): hook decisions, deny and allow rules, modes,
  and the `can_use_tool` callback's answer;
- streamed responses (`stream`, `sse`, `openai`, `gemini`, `providers`):
  event accumulation and the translation of each provider's wire format;
- tools (`executor`, `grep`, `tool_defs`, `sanitize`): the computing parts of
  Read, Edit, Bash, Glob and Grep, and the shaping of their output;
- the assistant around it (`orion`, `config`, `cron`, `session`, `gateway`,
  `telegram`, `catalog`): custom tools, configuration, schedules, transcripts,
  WebSocket and chat relays, model lookup, and the migrations of the
  session database (`migrate`).

Calls into outside crates (regex, glob, chrono, cron, serde_json, base64,
uuid) go through small trusted wrappers whose contracts name or state their
results. Laws that span several functions stand as public proof functions
(`lemma_*`).

`app/` is the ordinary Rust around the library: HTTP providers, file and
process I/O for the tools, transcripts on disk, SQLite stores, configuration
files, the priced model catalog and the asynchronous query driver, which runs
the hooks and the tools. `tests/` runs the library on
concrete values.
