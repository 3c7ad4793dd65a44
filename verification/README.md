# openfang_runtime

The decision logic of an agent runtime, as a Verus-verified library: the agent loop's
controls (re-prompts, retries, blocked rounds, tool-call recovery and deduplication), eco-mode
and prompt-composition planning, compression and telemetry stores, graph-memory tagging and
inbox import plans, browser session and page-script decisions, document extraction layout,
repository-subtree download policy, and the messages each tool reports.

- `src/` — the verified library. Calls into outside crates (`ainl-*`, `dashmap`, `serde_json`,
  `regex-lite`, `uuid`, `zip`) go through small trusted wrappers whose contracts name or state
  what the crates return.
- `tests/` — tests of the library on concrete values.
- `app/` — host glue that is not verified: environment variables, process-wide stores,
  file, process and network I/O (Chromium and its DevTools socket, GitHub, spreadsheets, PDF,
  the graph store), floating-point reports, and the serde copies of library types.

The compose store, eco hysteresis, eco telemetry and the LLM call metrics keep their entries
in `dashmap::DashMap`, through small wrappers whose contracts say what each map operation does
to a named `Map` of the entries. The cache streaks (a mutex-guarded standard hash map with
string keys, which vstd's specifications say nothing useful about) and the bridge cache (whose
values come from a crate not available here, so it is generic) use `AgentMap`, a vector of
entries with distinct keys.

Not covered here, because their code is not available to this crate:

- the graph-memory extractor module that decides repeated tool patterns beyond the library's
  own cycle detection (`AinlExtractorBridge::extract_pattern` answers `None` there) and the
  graph-memory turn-extraction store;
- the context-budget truncation;
- the LLM driver, session and kernel types that run the agent loop and the retry runners.
  `app/` therefore holds no agent loop and no retry runner; `LoopControl` and
  `next_retry_step` are the decisions such a loop makes at each step.
