# mux-compiler

The verified core of the compiler for the Mux language: a library in Verus
whose functions state what they return, and are proved to do so.

## Layout

- `src/text.rs`, `src/lines.rs`, `src/table.rs`, `src/paths.rs`: texts, lines,
  tables by name, and paths.
- `src/source.rs`, `src/lexer/`: reading a text and taking it apart into tokens.
- `src/ast/`, `src/parser/`: the syntax tree and the parser, with recovery.
- `src/syntax.rs`: from a text to nodes, diagnostics and recovered ranges.
- `src/diagnostic/`: codes, files, edits, fixes, diffs, transactions, rendering.
- `src/module_resolver.rs`: imports.
- `src/semantics/`, `src/codegen/`: types, and what statements, loops, matches
  and constraints are generated as. Generation is a sequence of steps
  (`src/codegen/steps.rs`) that an instruction builder carries out.
- `src/driver/`: the decisions of the command-line tool and the texts it prints.
- `app/`: the tool itself: arguments, files, processes, and the LLVM builder.
- `tests/`: what the library does on given inputs.

Widths of characters come from `unicode-width` and escape codes from `anstyle`.
Appending a character, reading bytes as text and quoting a text come from the
standard library. What the proofs take on trust about these is written at the
functions that call them.
