# galaxc

The GalaxC compiler front end, its IR listing, the logic of its command-line
tools and of its debugger, written in Verus and verified against their
contracts.

## Layout

- `src/lexer` — the scanner; `tokenize` gives the token stream that fits the
  lexical grammar stated in `lexer::rules` (`lexed`), and fails exactly when
  the text has none. `lexer::unique` proves that a text has at most one
  token stream.
- `src/parser` — recursive descent with precedence climbing, over the token
  stream without the line breaks that stand inside brackets
  (`parser::state::filtered`). Expressions of
  the operator sublanguage are proved to group by precedence and to the left
  (`parser::expr::writes`); patterns, types, struct fields and the heads of
  `let` and `var` are tied to the tokens they are read from
  (`pattern_from`, `type_from`, `fields_declared`, `binding_head`).
- `src/checker` — scopes and tables of the type environment (with laws on
  lookup and scoping), type resolution, and the statement rules (immutable
  `let`, `break` outside loops, unused results, ...); programs of quiet
  items (`quiet_item`) always type-check.
- `src/ir` — lowering of the syntax tree, stated exactly by a recursive function of the tree
  (`ir::lower::lowered_program`), C text of expressions and types, and the
  IR listing (`ir::show_program`).
- `src/diagnostics` — spans, source locations, diagnostics and their layout
  for the terminal.
- `src/debugger` — the debugger session: breakpoints, stepping, console
  commands, key handling and what its panels show, with laws on breakpoints
  and scrolling.
- `src/toolchain` — the source formatter, the files of a new project and the
  choice of C compiler.
- `app/` — the `galaxc` command: file and process I/O, coloured output and
  the terminal user interface of the debugger.
