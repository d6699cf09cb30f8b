# MiniLisp-RS

A small Lisp interpreter — tokenizer, parser, evaluator, built-in procedures —
together with the editor support of its graphical front end (current line,
bracket matching, syntax highlighting). The library under `src/` is written in
Verus: each public function states what it does in a `requires`/`ensures`
contract over mathematical models (`Seq<char>` for text, the `Datum` view of
values, `Scopes` for environments), and Verus proves the code against it.

## Layout

- `src/text.rs`, `src/token.rs`, `src/tokenizer.rs` — characters, tokens and
  the tokenizer (`tokenize_spec`).
- `src/value.rs`, `src/parser.rs` — values, their display form (`show`) and
  the reader (`parse_at`).
- Environments are scopes: a global scope and one scope for each call of a
  procedure, made inside the scope the procedure was made in
  (`lookup_in`, `define_in`, `call_scopes`).
- `src/eval_env.rs`, `src/form.rs`, `src/builtins.rs` — environments and
  evaluation (`eval_spec`), the special forms (`define`, `lambda`, `quote`,
  `quasiquote`, `if`, `cond`, `and`, `or`, `begin`, `let`) and the built-in
  procedures (arithmetic and comparison, lists and pairs, `map`, `filter`,
  `reduce`, `apply`, `eval`, printing, `error`, `exit`, predicates).
- `src/output.rs` — the buffer that printing procedures write to.
- `src/numeric.rs` — numbers are IEEE-754 doubles kept as bit patterns; every
  operation on them is a question put to a numeric backend that the caller
  supplies, so the interpreter is verified for every backend.
- `src/editor.rs`, `src/docs.rs` — editor decorations, highlighting runs and
  the reference shown in the window.
- `src/session.rs` — the terminal's answer to a line and the report of the
  window's Run button.
- `src/laws.rs` — properties across the evaluator: evaluation in a scope
  only adds to that scope and to the output, calls and `let` leave the
  existing scopes as they were, a procedure's body reads names where the
  procedure was made, `define` followed by a read, `quote`, `if`, `and`,
  `or`, `map`.
- `app/` — the program: a terminal REPL, a file runner and (with `--gui`)
  the eframe window, with the `f64` backend.
- `tests/` — tests of the library.
