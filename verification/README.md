# basalt_core

The compiler of the Basalt language (a statically typed language with no
implicit conversions, no null, errors as values and capability-based I/O),
written in Verus: lexer, parser, type checker and register-bytecode
compiler, each function with a contract that Verus proves.

## Layout

- `src/text.rs` — string helpers (concatenation, comparison, number text).
- `src/lexer.rs` — source text to tokens with positions; tokens come in
  source order, literals carry their values, names are never keywords.
- `src/parser.rs` — recursive descent from tokens to the syntax tree
  (`src/ast.rs`); each construct is identified by its first token, every
  refusal names the token it stopped at, and operators group by binding
  strength.
- `src/error.rs` — compile errors and their rendering with source context.
- `src/types/` — the type checker:
  - `mod.rs` types, their views and the typed syntax tree;
  - `checker.rs` scopes, aliases, subtyping, assignability and narrowing;
  - `resolve.rs` written types to checked types;
  - `rules.rs`, `methods.rs` operator, conversion, field and method rules;
  - `exprs.rs` checking expressions and statements (`expr_rule`, `stmt_rule`);
  - `patterns.rs` match patterns and exhaustiveness;
  - `flow.rs` "returns on every path";
  - `capture.rs` which mutable variables closures capture;
  - `program.rs` registering definitions and checking a whole program;
  - `typing.rs` what a well-typed checked tree is (every node obeys its rule);
  - `laws.rs` properties of the typing relations for all inputs.
- `src/compiler/` — the bytecode compiler:
  - `mod.rs` instructions, compiled functions and programs, and what a
    well-formed function is (registers below its count, string constants
    in range, jumps inside its code);
  - `codegen.rs` compiling checked programs: register allocation, jump
    patching, pattern tests and instruction selection;
  - `capture.rs` the free variables of closures and which mutable
    variables they capture.
- `src/lib.rs` — `compile`: source text through every stage to bytecode.
- `src/imports.rs` — module names of imports and attaching imported items.
- `app/` — reading files and imported modules from disk around the library,
  then checking or compiling them.
- `tests/` — the test suite.
