# tao

The front and middle of a small functional language, verified with Verus.

- `src/parse.rs` and `src/parse/`: a recovering parser from tokens to the
  syntax tree of `src/ast.rs`. Each grammar rule is a spec function over the
  token sequence, and each parser is proved to compute it; `parse/laws.rs`
  proves that a module which parses without errors holds no error node.
- `src/ty.rs`: the arena of types and generic scopes, and how a type is written.
- `src/lower.rs` and `src/lower/`: lowering of the syntax tree into the lowered
  tree of `src/hir.rs`. Name resolution in nested scopes, the checks on the
  generics of data types, aliases and definitions, and, for types, patterns
  and expressions, the lowered node together with what lowering asks of type
  inference (`src/infer.rs`: new type variables, flows, demands, class
  memberships and errors). Each is proved to compute a spec function of the
  syntax tree, the scope and the state before.
- `src/program.rs`: the bytecode program that the compiler emits into, and
  its listing (`src/text.rs` writes numbers).
- `app/`: the printing that needs `Display`, `Debug` or floating point.
