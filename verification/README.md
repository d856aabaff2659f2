# qplan

Compiles typed query expressions into execution-friendly query plans, in Rust verified with
Verus.

The compiler is intentionally narrow: it turns AND trees over terms, phrases and NEAR
constraints into a conjunctive plan. Unsupported operators return explicit errors, so that
downstream systems can choose a fallback.

```rust
use qplan::{compile_conjunctive, Phrase, QExpr, Term};

let q = QExpr::And(vec![
    QExpr::Term(Term::new("alpha")),
    QExpr::Phrase(Phrase::new(vec![Term::new("new"), Term::new("york")])),
]);

let p = compile_conjunctive(&q).unwrap();
assert!(!p.bag_terms.is_empty());
```

## Layout

- `src/expr.rs`: query expressions and blank terms
- `src/plan.rs`, `src/error.rs`: plans and errors
- `src/planning.rs`: which plan an expression has, as a definition
- `src/compile.rs`: the compiler, proved to return that plan
- `src/laws.rs`, `src/meaning.rs`: what holds of every compilation, up to this: a document meets
  a query exactly if it holds the bag of the plan and passes its positional constraints
- `src/texts.rs`: facts about first occurrences
- `src/algebra.rs`, `src/cost.rs`: rewrites of boolean queries, and what their nodes cost
- `app/`: the errors as `std::error::Error`, and query optimization by equality saturation (egg)
