# domain_experts

An educational shell in which students consult simulated domain experts
(personas backed by a local Ollama model), hold multi-persona meetings and
record decisions, with manipulation detection and response-quality checks.

- `src/` is the verified library: the context contract and its validation,
  the data model (personas, world model, scenarios, sessions), command
  parsing, prompt assembly, consultation and meeting orchestration, the
  quality checks (manipulation, hallucination, fidelity, consistency), the
  Ollama retry policy, and the interactive engine as a state machine whose
  actions (ask the model, save, take the next step, leave) are carried out
  by the shell.
- `app/` is the program around it: argument handling, reading the context
  repository and sessions from disk (JSON), HTTP calls to Ollama, and the
  terminal screen.
- `tests/` exercises the library on concrete values.
