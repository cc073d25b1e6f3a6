# kimi_cli_rs

A command-line coding agent's core, written in Verus: its rules are
executable Rust proved against their contracts.

- `src/` is the verified library: configuration and launch choices, the
  agent loop's decisions (plan mode, tool-call approval, step results,
  D-Mail reverts, side questions), the conversation context and its
  checkpoints, compaction, hooks and their payloads, the approval request
  registry, background tasks, MCP server configuration and results, plugins,
  skills and the D2 and Mermaid flowchart parsers, sessions and their state.
- `app/` is the program around it: argument parsing, files, and the
  serialization of the library's values.
- `tests/` runs the library on concrete inputs.
