# agent_rig

A provider-agnostic toolkit for building AI agents, verified with
[Verus](https://github.com/verus-lang/verus).

The library decides and `app/` acts. Everything that an agent's run depends on is a
state machine or a plain function with a contract: what to ask the model, what to
report, how tool calls begin and end, how a conversation grows, how requests to Gemini
and Ollama are written and their answers read. What is asynchronous or talks to the
network stands in `app/` and feeds the library events.

- `src/model.rs`, `src/agent.rs`, `src/error.rs`, `src/json.rs`: messages, requests,
  responses, agents, errors and JSON values.
- `src/render.rs`: JSON values and `serde_json`.
- `src/tools/`: tool definitions and results, the registry, requests and approvals,
  agents as tools.
- `src/runner/`: the agentic loop whose tool calls the consumer carries out, with its
  laws in `src/runner/laws.rs`.
- `src/tool_loop/`, `src/registry_runner.rs`, `src/mpsc_runner.rs`: the loop that
  carries out tool calls itself, behind an authorization policy.
- `src/conversation.rs`: conversations of several turns.
- `src/models/`: the provider adapters.
- `app/`: models, channels, cancellation and serialization.
