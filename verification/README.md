# q_body

The decision logic of q-body, a self-evolving A2A (agent-to-agent) JSON-RPC
agent, written in Verus: every function in `src/` carries a `requires` /
`ensures` contract that Verus proves.

## Layout

- `src/` — the verified library.
  - Protocol: `a2a` (A2A types, deep plans), `protocol` (protocol kinds and
    their handlers), `registry` (JSON-RPC method routing), `router` (tool
    schemas and argument validation), `server` (port and agent card),
    `handler` (method routing, provider fail-over steps, replies).
  - Stores: `state` (tasks), `memory`, `active_memory`, `learnings`,
    `skills`, `skill_evolve`, `journal`, `cycles`, `retry`, `trust`,
    `trust_input`, `local_search`, `mcp_registry`.
  - Checks: `backlog` (dated entries and their expiry), `eval` (the
    validation ledger), `health`, `queue` (LLM failure events), `risk`,
    `sandbox`, `reflect`, `evolution_gate`, `validator` (dangerous shell
    commands, recency query choice), `clamp` (per-line clamping).
  - Support: `text` (strings, UTF-8 lengths), `strmap` (a map from strings
    kept sorted by key), `json` (JSON values), `clock` (instants).
  - Calls into `chrono`, `uuid`, `serde_json` and a few std functions stand
    behind small trusted wrappers whose contracts say what those functions
    do; each names the function it calls.
- `tests/` — tests run against the compiled library.
- `app/` — the executable around the library: the HTTP server, file and
  network I/O, serde forms of the library's types, and the computations
  on floating-point numbers.
