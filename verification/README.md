# protosnirk

The front end of the protosnirk compiler, verified with Verus.

- `src/lex.rs`, `src/ast/`: tokens, text locations and the syntax tree.
- `src/check/`: the checking passes.
  - `scope/`: scope indices, and the passes that give functions, parameters
    and type names their `ScopedId`s (`ASTIdentifier`).
  - `symbol/`: the symbol table and the symbol checker, which reports
    undeclared, redeclared and wrongly mutated variables and bad calls.
  - `lint/`: warnings for unused and never-mutated variables.
  - `types/`: types and the three ways the front end records what it
    infers about them:
    - the type environment, with constraints collected from signatures
      (`item_collector.rs`) and from function bodies
      (`expression_collector.rs`);
    - type equations between `TypeId`s of the expressions, statements and
      functions of a program (`inferred_type.rs`, `expr_identifier.rs`);
    - the type inference graph (built on `petgraph`), the pass that builds
      it from expressions, statements and functions
      (`identify/expr_checker.rs`), and the inference of a variable's type
      from it (`type_concretifier.rs`).
  - `program.rs`, `program_checker.rs`: checking a whole unit.
- `src/compile/`: the scope stack used while generating code.
- `src/example.rs`: a small byte parser for bindings such as `let x = 12`.
- `app/`: the bytecode back end's register and constant tables, which hold
  floating-point values.

Not here:

- a node for a function's own type in the type graph, so a function's
  variable is tied to its signature only in the type equations;
- the walk of a whole program that reads the types of all its variables
  back from the graph;
- the back ends: the LLVM code generator and the bytecode chunk writer.

Each module states its behaviour in `requires`/`ensures` contracts over
mathematical views; the public `law_*` proof functions state what holds
across calls.
