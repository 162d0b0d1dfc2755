# moss

Moss turns one user request into a small plan of tasks ("gaps"), solves each gap by
having an LLM write and run code, and writes a final answer from the evidence the gaps
produced. This crate is its verified core, written in Verus.

## Layout

- `src/` — the library, every function with a contract proved by Verus:
  - `moss/blackboard.rs` — the shared board of gaps and evidence, its mathematical view
    (`BoardView`), and the laws of scheduling (promotion, dispatch, append-only gaps);
  - `moss/orchestrator.rs` — applying the planner's decision, one round of the gap
    scheduler, the synthesis prompt and the environment report;
  - `moss/solver.rs` — the solver loop for one gap as a state machine (state, event →
    next state, action) and its prompt;
  - `moss/artifact_guard.rs` — the static scan of generated code (approve, gate, reject);
  - `moss/compiler.rs`, `moss/executor.rs`, `moss/runner.rs` — the compile-and-run path;
  - `cli.rs`, `cli/screen.rs` — what the terminal shows: the live view as lines of
    styled pieces, the human's answers, the welcome banner;
  - `providers/` — the chat message model, the provider interface, an echoing provider,
    `.env` parsing and the OpenRouter settings.
  Calls into `dashmap`, `uuid`, `minijinja`, `serde_json` and `ratatui` go through small wrappers
  whose contracts name what those crates return.
- `tests/` — tests of the library on concrete values.
- `app/` — the program around it: the async driver that talks to the LLM, runs code and
  asks the human, the HTTP client, and the terminal interface.
