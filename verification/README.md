# rhai (verified core)

A verified core of the Rhai scripting engine, written in Verus. The library holds the
parts of the engine that compute: values and their operators, checked integer
arithmetic, bit fields, integer parsing and formatting, object maps, the scope of
variables, the stack of imported modules, error values and their messages, the token
stream helpers of the parser, the script optimizer (constant folding and propagation
over expressions, dead-code removal and branch folding over statements), the file
module resolver's cache, and hash keys.

Each public function states in its `requires`/`ensures` what it does, over
mathematical models (`Seq`, `Map`, `int`); Verus proves the code against them. Public
proof functions named `law_*` state properties that span several functions (what a
read gives back of a write, what one operation undoes, what every operation keeps).

Layout:

- `src/` — the verified library (`lib.rs` is the root).
  - `dynamic.rs`, `immutable_string.rs`, `map.rs`, `scope.rs` — values and containers.
  - `fn_builtin.rs` — the built-in operators, chosen by operator and operand types.
  - `packages/` — script functions: arithmetic, bits, integer parsing and formatting,
    maps (including their comparison), printing of values, arrays and maps, tags.
  - `error.rs`, `error_parsing.rs`, `position.rs` — errors, their messages and positions.
  - `ast.rs`, `optimize.rs` — expressions and statements, and the optimizer, whose
    folds are proved to keep every value known before the script runs.
  - `eval.rs` — evaluation of expressions and statements, with function calls, indexers,
    custom syntax, the variable resolver and the progress report as callbacks.
  - `engine.rs`, `parse.rs`, `custom_syntax.rs` — evaluation and parsing support:
    variable lookup, indexing, assignment, limits, the import stack, and the
    registration of custom syntax and custom operators.
  - `module.rs`, `module/resolvers/file.rs` — modules and the file resolver's cache.
  - `fn_hash.rs`, `static_vec.rs`, `fn_native.rs`, `text.rs`, `entries.rs` — hashing,
    short vectors, shared values, text helpers and string-keyed entry lists.
- `tests/` — tests of the library on concrete values.
- `app/` — what stands around the library: floating-point functions, `Display` and
  `Hasher` impls on wrapper types, a call that may panic, reading script files for the
  file resolver, and running statements with default callbacks.
