# winapi_gen

A tokenizer for C header files, verified with Verus.

- `src/state.rs`: the comment-recognising state machine, its mathematical
  model (`MachineModel`, `spec_step`) and the laws proved of it (a step keeps
  the invariant and keeps the state in agreement with its line, so that each
  recorded comment holds what stands between its `/*` and `*/`; the cursor
  moves one column per character; every run ends).
- `src/token.rs`: tokens, locations and token spans.
- `src/file.rs`, `src/header_file.rs`, `src/parser.rs`: the decisions made
  around reading files (size limit, missing files, contents not yet read).
- `app/`: the program and the file I/O around the library.
- `tests/`: tests on concrete inputs.
