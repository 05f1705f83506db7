# agentsdk

A small SDK for AI agents that talk to OpenAI-compatible chat APIs, with a
plugin system, filesystem tools, skills, prompt files, human-in-the-loop
questions and MCP tool routing.

- `src/` is the library, verified with Verus: the agent run as a state
  machine, how plugin answers are combined, tool-call assembly, the
  streamed-response accumulator, token usage, the filesystem tools and their
  listing format, path confinement, skill loading and dependency order,
  prompt-file merging, the user-interaction queue, MCP tool routing, schema
  simplification and the code-generation IR.
- `app/` is the host around it: the async plugin trait and its `hecs`
  context, the real-disk providers, reading skills and prompt files, the
  HTTP backend, and the loop that performs what the state machine asks for.
- `tests/` exercises the library on concrete values.
