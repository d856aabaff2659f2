use qplan::algebra::{rules, Pattern};
use qplan::cost::{node_cost, Operator};

fn holds(p: &Pattern, x: bool, y: bool, z: bool) -> bool {
    match p {
        Pattern::X => x,
        Pattern::Y => y,
        Pattern::Z => z,
        Pattern::True => true,
        Pattern::False => false,
        Pattern::And(a, b) => holds(a, x, y, z) && holds(b, x, y, z),
        Pattern::Or(a, b) => holds(a, x, y, z) || holds(b, x, y, z),
        Pattern::Not(a) => !holds(a, x, y, z),
    }
}

#[test]
fn rules_are_listed_in_order() {
    let listed: Vec<(String, String, String)> = rules()
        .iter()
        .map(|r| (r.name.clone(), r.left.to_sexpr(), r.right.to_sexpr()))
        .collect();
    let expected = [
        ("and-idem", "(and ?x ?x)", "?x"),
        ("or-idem", "(or ?x ?x)", "?x"),
        ("not-not", "(not (not ?x))", "?x"),
        ("and-true", "(and ?x true)", "?x"),
        ("or-false", "(or ?x false)", "?x"),
        ("and-false", "(and ?x false)", "false"),
        ("or-true", "(or ?x true)", "true"),
        ("and-comm", "(and ?x ?y)", "(and ?y ?x)"),
        ("or-comm", "(or ?x ?y)", "(or ?y ?x)"),
        ("and-absorb", "(and ?x (or ?x ?y))", "?x"),
        ("or-absorb", "(or ?x (and ?x ?y))", "?x"),
        ("and-assoc", "(and ?x (and ?y ?z))", "(and (and ?x ?y) ?z)"),
        ("and-assoc-rev", "(and (and ?x ?y) ?z)", "(and ?x (and ?y ?z))"),
        ("or-assoc", "(or ?x (or ?y ?z))", "(or (or ?x ?y) ?z)"),
        ("or-assoc-rev", "(or (or ?x ?y) ?z)", "(or ?x (or ?y ?z))"),
        ("and-dist-or", "(and ?x (or ?y ?z))", "(or (and ?x ?y) (and ?x ?z))"),
        ("and-dist-or-rev", "(or (and ?x ?y) (and ?x ?z))", "(and ?x (or ?y ?z))"),
    ];
    assert_eq!(listed.len(), expected.len());
    for (got, want) in listed.iter().zip(expected.iter()) {
        assert_eq!((got.0.as_str(), got.1.as_str(), got.2.as_str()), *want);
    }
}

#[test]
fn rules_keep_the_value() {
    for r in rules() {
        for bits in 0..8 {
            let (x, y, z) = (bits & 1 != 0, bits & 2 != 0, bits & 4 != 0);
            assert_eq!(holds(&r.left, x, y, z), holds(&r.right, x, y, z));
        }
    }
}

#[test]
fn rules_bind_their_variables() {
    for r in rules() {
        for v in ["?x", "?y", "?z"] {
            assert!(!r.right.to_sexpr().contains(v) || r.left.to_sexpr().contains(v));
        }
    }
}

#[test]
fn costs_are_exact() {
    assert_eq!(node_cost(Operator::Symbol, &vec![]), Some(1));
    assert_eq!(node_cost(Operator::And, &vec![1, 1]), Some(3));
    assert_eq!(node_cost(Operator::Or, &vec![1, 3]), Some(7));
    assert_eq!(node_cost(Operator::Not, &vec![7]), Some(9));
    assert_eq!(node_cost(Operator::And, &vec![usize::MAX - 1]), Some(usize::MAX));
    assert_eq!(node_cost(Operator::And, &vec![usize::MAX - 1, 1]), None);
    assert_eq!(node_cost(Operator::Or, &vec![usize::MAX]), None);
}

#[test]
fn nodes_cost_more_than_their_children() {
    for children in [vec![1, 5], vec![5, 1], vec![2, 2, 9]] {
        let and = node_cost(Operator::And, &children).unwrap();
        let or = node_cost(Operator::Or, &children).unwrap();
        assert!(children.iter().all(|c| and > *c));
        assert!(or > and);
    }
}
