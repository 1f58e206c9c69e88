# bot_core

The core of a chat bot that works with tools: what it decides in a conversation
turn, how it finds and reads skills, and how it runs commands and touches files in
a sandbox. The library is written in Verus, and every function in it has a
contract that the verifier checks.

- `src/text.rs`, `paths.rs`, `order.rs`, `json.rs`, `text_map.rs`, `tokens.rs`: the
  texts, paths, orders and values that the rest is stated over.
- `src/skill/`: names and frontmatter of skills, scanning directories for them,
  looking them up, ranking them and showing them to a model.
- `src/search.rs`, `search_query.rs`: searching memory, skills and the web.
- `src/sandbox/`: which paths a sandbox opens, how commands are started, followed
  and cancelled, and how a container is brought up.
- `src/workflow.rs`, `src/runtime/`: agents, models and tools, the prompts and
  budgets of a request, workflows with their supervisor and delegated sessions.
  A turn, the preparation of its rounds, the supervisor of a workflow, a task of
  another agent and an answer over ACP are machines that take events and answer
  with actions; `runtime/round_run.rs` holds what a round keeps meanwhile.
- `app/`: processes, files, the network and the clock around these decisions.

Calls into other crates stand behind small wrappers with stated contracts:
`serde_json`, `serde_yaml`, `regex`, `chrono` and `uuid`.
