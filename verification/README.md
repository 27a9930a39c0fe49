# nophp

An interpreter for NoPHP pages. A page arrives as a syntax tree (a JSON
document produced by the Python lexer and parser of the language); the
interpreter builds a module for every node, runs the modules in order, and
collects what they write into an output buffer.

## Layout

- `src/` — the verified library.
  - `ast.rs`: the syntax tree (`Value`) and its mathematical model (`Json`).
  - `text.rs`: string equality and order, decimal numbers, `\n` escapes.
  - `prelude.rs`: `NoPhpError`, and `Built`, which tells an error apart from
    an input on which the interpreter gives up (panics).
  - `semantics.rs`: the meaning of a tree — what building a module gives
    (`parse_outcome`, `build_seq`) and what running or evaluating modules
    does to the output and the variables (`run_nodes`, `eval_nodes`).
  - `modules/`: one module per kind of node (`PHP`, `FUNCTION_CALL`,
    `CONCAT`, `VARIABLE_ASSIGNMENT`, `CONDITIONAL`, `ID`, `STRING`).
  - `compiler.rs`: `Compiler`, which builds, runs and evaluates modules.
  - `laws.rs`: properties of the interpreter as a whole.
- `tests/` — tests of the library.
- `app/` — the command line: runs the Python lexer through pyo3, converts its
  output into the library's tree, and interprets one page or serves a
  directory of pages over HTTP.
