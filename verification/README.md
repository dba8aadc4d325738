# pseudo

An interpreter for the pseudocode of the Cambridge A-level syllabus, whose front end and
run-time bookkeeping are verified with Verus.

- `src/` is the verified library:
  - `lexer.rs`: source characters to tokens, specified by `lex_spec`;
  - `parser/`: tokens to a syntax tree; `parser/grammar.rs` states the grammar as spec
    functions, and every parsing function returns exactly what the grammar gives;
  - `executor/`: the scopes of a running program (`variable.rs`), its open files
    (`files.rs`), the layout of arrays (`arrays.rs`), the rules of classes (`run_class.rs`),
    the checks of a call (`run_expr.rs`), and the built-in functions on strings, characters,
    dates and files, with their argument checks and dispatch (`run_builtins.rs`);
  - `ast.rs`, `tokens.rs`, `types.rs`, `position.rs`, `text.rs`, `assoc.rs`, `source.rs`:
    the data they share.
- `app/` is the program: it reads the source file, runs the lexer and parser of the library,
  shows diagnostics, and evaluates the tree, keeping values (reals among them) in shared
  cells and asking the library for every scope, file, array, call and built-in decision.
- `tests/` exercise the library on concrete programs and values.
