# llamac

The front end of LLama, a small language: a lexer, a recursive-descent
parser that builds an abstract syntax tree, and a type checker that infers
types by unification. The library is written in Verus and verified.

Layout:

- `src/lexer/` — the lexer. `spec.rs` states what lexing means over the
  characters of the program, `mod.rs` implements it and proves each token
  against that statement, `laws.rs` holds what holds of all inputs.
- `src/parser/` — the parser: declarations, expressions by precedence,
  patterns and type annotations. The grammar is stated over the tokens in
  `grammar.rs` (types, patterns, attributes), `expr_grammar.rs`
  (expressions, as one function over the grammar's nonterminals, with a
  lemma that unfolds each of them one step) and `item_grammar.rs`
  (declarations); each parsing function is proved to give what the grammar
  says, a syntax tree of the stated value or the stated error message.
- `src/typechecker/` — substitutions and unification (`substitution.rs`),
  the conversion of annotations to types (`convert.rs`), inference for
  expressions (`expr.rs`) and declarations (`node.rs`), the check of trait
  constraints (`solve.rs`), and reading the result through the final
  substitution (`apply.rs`). `mirror.rs` states when a typed tree has the
  shape of the tree it was checked from. Each form of expression has a
  rule in `expr.rs` (`expr_rule` and the rules it names) that says which
  parts are checked in which order, which fresh variables are taken and
  which types are unified, and which step's error is the result; the
  declarations have such rules in `node.rs`, and `TypeChecker::typecheck`
  is stated as checking each declaration in turn, then solving the
  pending constraints, then applying the final substitution.
- `src/lib.rs` — the symbol table.
- `app/main.rs` — the command-line program: reads a file, prints its tokens
  and the parsed declarations.

Not part of this crate: the LLVM code generator (`codegen`), which drives
LLVM through its C bindings, and the older second parser that only that
generator used (it reads token fields and a token kind that the lexer no
longer has). The crate covers everything up to and including the typed
program.
