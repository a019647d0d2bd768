# Erm

A toy interpreter for a small part of Elm. The library reads a module's source, builds
its syntax tree, loads the scopes of the modules it imports, checks types by unification and
evaluates `main`. Its logic is written in Verus and verified against contracts stated over
mathematical models of the tokens, syntax trees, scopes, types and values.

## Imports and the prelude

An imported module is looked for below each source directory of the project, in order, and
last in `core/`. A module read from a source directory gets the prelude imports before its own:
`Basics` exposing `(+)`, `String`, `List`, and `Maybe` exposing `Maybe(..)`. A module read from
`core/` gets no prelude: its imports are the ones it writes. This follows the Elm compiler,
which adds the default imports to every module outside its core package.

## Layout

- `src/lexer.rs`: tokens and their byte ranges, with the token grammar as spec functions.
- `src/parser.rs`, `src/parser/`: the parser. The grammar of expressions, types and modules
  is written as spec functions on the token sequence (`grammar.rs`, `type_grammar.rs`,
  `module_grammar.rs`); each parsing function is proved to give what the grammar reads and to
  stop where it stops.
- `src/ast.rs`, `src/ast/views.rs`: syntax trees and their mathematical views.
- `src/env.rs`, `src/env/loader.rs`: scopes, name lookup, and the loading of imported modules
  as a state machine that asks its caller for files.
- `src/checker.rs`, `src/checker/`: type terms, unification and the type checker.
- `src/evaluator.rs`, `src/evaluator/`: values and the evaluator.
- `src/builtins.rs`, `src/bindings.rs`: the kernel functions.
- `src/error.rs`: the messages shown to the user.
- `app/main.rs`: the command line program: arguments, files, and floating-point arithmetic.
- `tests/`: tests run against the compiled library.
