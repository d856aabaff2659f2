use qplan::{compile_conjunctive, Error, FieldName, Near, Phrase, QExpr, Term};
use std::collections::HashSet;

/// A small deterministic source of numbers.
struct Source(u64);

impl Source {
    fn below(&mut self, n: u64) -> u64 {
        self.0 = self.0.wrapping_mul(6364136223846793005).wrapping_add(1442695040888963407);
        (self.0 >> 33) % n
    }

    fn text(&mut self) -> String {
        let len = 1 + self.below(2);
        (0..len).map(|_| (b'a' + self.below(4) as u8) as char).collect()
    }

    fn terms(&mut self) -> Vec<Term> {
        let len = 2 + self.below(3);
        (0..len).map(|_| Term::new(&self.text())).collect()
    }

    /// A tree of terms, phrases, proximity constraints and conjunctions, without blank terms.
    fn and_only(&mut self, depth: u32) -> QExpr {
        let kind = if depth == 0 { self.below(3) } else { self.below(5) };
        match kind {
            0 => QExpr::Term(Term::new(&self.text())),
            1 => QExpr::Phrase(Phrase::new(self.terms())),
            2 => {
                let window = 1 + self.below(9) as u32;
                let ordered = self.below(2) == 0;
                QExpr::Near(Near::new(self.terms(), window, ordered))
            }
            _ => {
                let len = 1 + self.below(3);
                QExpr::And((0..len).map(|_| self.and_only(depth - 1)).collect())
            }
        }
    }
}

/// All texts that are not blank, from left to right.
fn collect_terms(expr: &QExpr) -> Vec<String> {
    let mut out = Vec::new();
    match expr {
        QExpr::Term(t) => {
            if !t.is_blank() {
                out.push(t.0.clone());
            }
        }
        QExpr::Phrase(p) => {
            for t in &p.terms {
                if !t.is_blank() {
                    out.push(t.0.clone());
                }
            }
        }
        QExpr::Near(n) => {
            for t in &n.terms {
                if !t.is_blank() {
                    out.push(t.0.clone());
                }
            }
        }
        QExpr::And(xs) | QExpr::Or(xs) => {
            for x in xs {
                out.extend(collect_terms(x));
            }
        }
        QExpr::Not(x) => out.extend(collect_terms(x)),
        QExpr::Field(_, x) => out.extend(collect_terms(x)),
    }
    out
}

#[test]
fn and_only_tree_always_compiles() {
    let mut source = Source(1);
    for _ in 0..500 {
        let expr = source.and_only(3);
        assert!(compile_conjunctive(&expr).is_ok());
    }
}

#[test]
fn bag_terms_contains_all_unique_terms() {
    let mut source = Source(2);
    for _ in 0..500 {
        let expr = source.and_only(3);
        let plan = compile_conjunctive(&expr).unwrap();
        let expected: HashSet<String> = collect_terms(&expr).into_iter().collect();
        let actual: HashSet<String> = plan.bag_terms.iter().cloned().collect();
        assert_eq!(actual, expected);
        assert_eq!(plan.bag_terms.len(), expected.len());
    }
}

#[test]
fn bag_terms_keep_the_order_of_first_occurrence() {
    let mut source = Source(3);
    for _ in 0..500 {
        let expr = source.and_only(3);
        let plan = compile_conjunctive(&expr).unwrap();
        let mut expected: Vec<String> = Vec::new();
        for t in collect_terms(&expr) {
            if !expected.contains(&t) {
                expected.push(t);
            }
        }
        assert_eq!(plan.bag_terms, expected);
    }
}

#[test]
fn constraints_stand_within_the_bag() {
    let mut source = Source(4);
    for _ in 0..500 {
        let plan = compile_conjunctive(&source.and_only(3)).unwrap();
        for ts in plan.phrases.iter().chain(plan.nears.iter().map(|n| &n.terms)) {
            assert!(ts.len() >= 2);
            assert!(ts.iter().all(|t| plan.bag_terms.contains(t)));
        }
        assert!(plan.nears.iter().all(|n| n.window > 0));
    }
}

#[test]
fn phrases_preserve_term_order() {
    let mut source = Source(5);
    for _ in 0..200 {
        let terms = source.terms();
        let expected: Vec<String> = terms.iter().map(|t| t.0.clone()).collect();
        let plan = compile_conjunctive(&QExpr::Phrase(Phrase::new(terms))).unwrap();
        assert_eq!(plan.phrases[0], expected);
    }
}

#[test]
fn or_always_rejected() {
    let mut source = Source(6);
    for _ in 0..200 {
        let len = 1 + source.below(3);
        let children = (0..len).map(|_| source.and_only(2)).collect();
        let expr = QExpr::Or(children);
        assert_eq!(compile_conjunctive(&expr).unwrap_err(), Error::UnsupportedOr);
    }
}

#[test]
fn not_always_rejected() {
    let mut source = Source(7);
    for _ in 0..200 {
        let expr = QExpr::Not(Box::new(source.and_only(2)));
        assert_eq!(compile_conjunctive(&expr).unwrap_err(), Error::UnsupportedNot);
    }
}

#[test]
fn field_always_rejected() {
    let mut source = Source(8);
    for _ in 0..200 {
        let name = FieldName::new(&source.text());
        let expr = QExpr::Field(name, Box::new(source.and_only(2)));
        assert_eq!(compile_conjunctive(&expr).unwrap_err(), Error::UnsupportedField);
    }
}

#[test]
fn compilation_is_deterministic() {
    let mut source = Source(9);
    for _ in 0..500 {
        let expr = source.and_only(3);
        let a = compile_conjunctive(&expr).unwrap();
        let b = compile_conjunctive(&expr).unwrap();
        assert_eq!(a, b);
    }
}
