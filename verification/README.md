# Vibra

The verified core of the Vibra toolchain: a statically typed, effect-tracked
language with an S-expression surface.

- `src/ast` lowers S-expressions to typed syntax, expands macros hygienically
  and rejects shadowing. `moving.rs` and `expansion_laws.rs` state what lowering
  and expansion keep.
- `src/frontend` selects the parts of modules, orders their loading, fills
  compile-time data and templates, and checks import aliases.
- `src/lowered`, `src/execute` hold lowered programs and run them. A run is a
  function of the program, its configuration and the replies that the host has
  given so far; where it needs one more, it says which request is open.
- `src/effect_semantics.rs`, `src/effect_inference.rs` and
  `src/body_semantics.rs` infer and check effects and function bodies;
  `src/effect_laws.rs` states how effects add up.
- `src/async_runtime.rs` is a deterministic scheduler of scopes, tasks and
  resources; `src/async_laws.rs` states what holds of its clock and its trace.
- `src/yaml`, `src/code`, `src/code_doc.rs` and `src/annotations.rs` read, query
  and edit source documents without touching the text around an edit.
  `src/code/database_laws.rs` states what databases of documents hold.
- `src/emit.rs`, `src/docs.rs`, `src/diagnostics.rs`, `src/expand_json.rs` and
  `src/compilation_pipeline.rs` serve the tools around the compiler.

`app/` performs input and output, floating-point arithmetic and serialization.
`tests/` run the library with the real outside crates.
