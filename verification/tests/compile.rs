use qplan::{compile_conjunctive, Error, FieldName, Near, NearPlan, Phrase, QExpr, Term};

fn texts(ts: &[&str]) -> Vec<String> {
    ts.iter().map(|t| t.to_string()).collect()
}

fn terms(ts: &[&str]) -> Vec<Term> {
    ts.iter().map(|t| Term::new(t)).collect()
}

fn term(t: &str) -> QExpr {
    QExpr::Term(Term::new(t))
}

fn phrase(ts: &[&str]) -> QExpr {
    QExpr::Phrase(Phrase::new(terms(ts)))
}

fn near(ts: &[&str], window: u32, ordered: bool) -> QExpr {
    QExpr::Near(Near::new(terms(ts), window, ordered))
}

#[test]
fn compiles_terms_and_phrases_into_bag_plus_constraints() {
    let q = QExpr::And(vec![
        QExpr::Term(Term::new("alpha")),
        QExpr::Phrase(Phrase::new(vec![Term::new("new"), Term::new("york")])),
    ]);
    let p = compile_conjunctive(&q).unwrap();
    assert_eq!(p.phrases.len(), 1);
    assert!(p.bag_terms.contains(&"alpha".to_string()));
    assert!(p.bag_terms.contains(&"new".to_string()));
    assert!(p.bag_terms.contains(&"york".to_string()));
}

#[test]
fn phrase_with_blanks_keeping_two_terms() {
    // 1 blank + 2 non-blank -> blank filtered, phrase kept with 2 terms.
    let q = QExpr::Phrase(Phrase::new(vec![
        Term::new("  "),
        Term::new("new"),
        Term::new("york"),
    ]));
    let p = compile_conjunctive(&q).unwrap();
    assert_eq!(p.phrases, vec![vec!["new".to_string(), "york".to_string()]]);
    assert!(p.bag_terms.contains(&"new".to_string()));
    assert!(p.bag_terms.contains(&"york".to_string()));
}

#[test]
fn phrase_reduced_to_one_term_errors() {
    // 1 blank + 1 non-blank -> only 1 term after filtering -> DegenerateConstraint.
    let q = QExpr::Phrase(Phrase::new(vec![Term::new("  "), Term::new("solo")]));
    assert_eq!(
        compile_conjunctive(&q).unwrap_err(),
        Error::DegenerateConstraint
    );
}

#[test]
fn phrase_all_blank_errors() {
    let q = QExpr::Phrase(Phrase::new(vec![Term::new("  "), Term::new("")]));
    assert_eq!(
        compile_conjunctive(&q).unwrap_err(),
        Error::DegenerateConstraint
    );
}

#[test]
fn near_reduced_to_one_term_errors() {
    let q = QExpr::Near(Near::new(
        vec![Term::new("  "), Term::new("only")],
        5,
        false,
    ));
    assert_eq!(
        compile_conjunctive(&q).unwrap_err(),
        Error::DegenerateConstraint
    );
}

#[test]
fn near_with_blanks_keeping_two_terms() {
    let q = QExpr::Near(Near::new(
        vec![Term::new("  "), Term::new("deep"), Term::new("learning")],
        5,
        true,
    ));
    let p = compile_conjunctive(&q).unwrap();
    assert_eq!(p.nears.len(), 1);
    assert_eq!(
        p.nears[0].terms,
        vec!["deep".to_string(), "learning".to_string()]
    );
    assert!(p.nears[0].ordered);
}

#[test]
fn rejects_or_not_field() {
    let q = QExpr::Or(vec![
        QExpr::Term(Term::new("a")),
        QExpr::Term(Term::new("b")),
    ]);
    assert_eq!(compile_conjunctive(&q).unwrap_err(), Error::UnsupportedOr);

    let q = QExpr::Not(Box::new(QExpr::Term(Term::new("a"))));
    assert_eq!(compile_conjunctive(&q).unwrap_err(), Error::UnsupportedNot);

    let q = QExpr::Field(
        FieldName::new("title"),
        Box::new(QExpr::Term(Term::new("a"))),
    );
    assert_eq!(
        compile_conjunctive(&q).unwrap_err(),
        Error::UnsupportedField
    );
}

#[test]
fn conjunction_has_a_bag() {
    let q = QExpr::And(vec![
        QExpr::Term(Term::new("alpha")),
        QExpr::Phrase(Phrase::new(vec![Term::new("new"), Term::new("york")])),
    ]);
    let p = compile_conjunctive(&q).unwrap();
    assert!(!p.bag_terms.is_empty());
}

#[test]
fn plan_of_a_mixed_tree_is_exact() {
    let q = QExpr::And(vec![
        term("b"),
        QExpr::And(vec![phrase(&["a", " ", "b"]), term("\t\n"), term("c")]),
        near(&["c", "d", "", "a"], 7, false),
        phrase(&["c", "c"]),
        near(&["e", "b"], 1, true),
    ]);
    let p = compile_conjunctive(&q).unwrap();
    assert_eq!(p.bag_terms, texts(&["b", "a", "c", "d", "e"]));
    assert_eq!(p.phrases, vec![texts(&["a", "b"]), texts(&["c", "c"])]);
    assert_eq!(
        p.nears,
        vec![
            NearPlan { terms: texts(&["c", "d", "a"]), window: 7, ordered: false },
            NearPlan { terms: texts(&["e", "b"]), window: 1, ordered: true },
        ]
    );
    assert!(!p.is_bag_only());
}

#[test]
fn texts_are_kept_as_they_are() {
    // Only wholly blank terms are dropped; white space around a text stays.
    let p = compile_conjunctive(&phrase(&[" a", "a", "A"])).unwrap();
    assert_eq!(p.bag_terms, texts(&[" a", "a", "A"]));
    assert_eq!(p.phrases, vec![texts(&[" a", "a", "A"])]);
}

#[test]
fn near_without_window_errors() {
    assert_eq!(
        compile_conjunctive(&near(&["a", "b"], 0, false)).unwrap_err(),
        Error::EmptyWindow
    );
    // Too few terms come first.
    assert_eq!(
        compile_conjunctive(&near(&["a", " "], 0, false)).unwrap_err(),
        Error::DegenerateConstraint
    );
    let p = compile_conjunctive(&near(&["a", "b"], u32::MAX, false)).unwrap();
    assert_eq!(p.nears[0].window, u32::MAX);
    assert!(!p.nears[0].ordered);
}

#[test]
fn near_all_blank_errors() {
    assert_eq!(
        compile_conjunctive(&near(&["", "\u{3000}", " "], 3, true)).unwrap_err(),
        Error::DegenerateConstraint
    );
    assert_eq!(
        compile_conjunctive(&near(&[], 3, true)).unwrap_err(),
        Error::DegenerateConstraint
    );
}

#[test]
fn blank_terms_compile_to_nothing() {
    let p = compile_conjunctive(&term(" \u{A0}\t")).unwrap();
    assert!(p.bag_terms.is_empty() && p.phrases.is_empty() && p.nears.is_empty());
    assert!(p.is_bag_only());
    let p = compile_conjunctive(&term("x")).unwrap();
    assert_eq!(p.bag_terms, texts(&["x"]));
    assert!(p.is_bag_only());
}

#[test]
fn empty_conjunction_compiles_to_nothing() {
    let p = compile_conjunctive(&QExpr::And(vec![])).unwrap();
    assert!(p.bag_terms.is_empty() && p.is_bag_only());
}

#[test]
fn conjunction_of_one_is_its_operand() {
    let whole = compile_conjunctive(&QExpr::And(vec![near(&["a", "b"], 2, true)]));
    assert_eq!(whole, compile_conjunctive(&near(&["a", "b"], 2, true)));
}

#[test]
fn nesting_does_not_matter() {
    let nested = QExpr::And(vec![
        term("a"),
        QExpr::And(vec![phrase(&["b", "c"]), QExpr::And(vec![term("d")])]),
        term("b"),
    ]);
    let flat = QExpr::And(vec![term("a"), phrase(&["b", "c"]), term("d"), term("b")]);
    assert_eq!(compile_conjunctive(&nested), compile_conjunctive(&flat));
}

#[test]
fn conjunction_composes_plans() {
    let left = compile_conjunctive(&QExpr::And(vec![term("b"), phrase(&["a", "b"])])).unwrap();
    let right = compile_conjunctive(&QExpr::And(vec![near(&["c", "a"], 2, false)])).unwrap();
    let whole = compile_conjunctive(&QExpr::And(vec![
        term("b"),
        phrase(&["a", "b"]),
        near(&["c", "a"], 2, false),
    ]))
    .unwrap();
    assert_eq!(left.bag_terms, texts(&["b", "a"]));
    assert_eq!(right.bag_terms, texts(&["c", "a"]));
    assert_eq!(whole.bag_terms, texts(&["b", "a", "c"]));
    assert_eq!(whole.phrases, left.phrases);
    assert_eq!(whole.nears, right.nears);
}

#[test]
fn blank_operands_are_ignored() {
    let with = QExpr::And(vec![term("a"), term(" \t"), phrase(&["b", "c"])]);
    let without = QExpr::And(vec![term("a"), phrase(&["b", "c"])]);
    assert_eq!(compile_conjunctive(&with), compile_conjunctive(&without));
    let with = QExpr::And(vec![term(""), near(&["a", "b"], 0, true)]);
    assert_eq!(compile_conjunctive(&with).unwrap_err(), Error::EmptyWindow);
}

#[test]
fn first_error_wins() {
    let q = QExpr::And(vec![
        term("a"),
        QExpr::And(vec![QExpr::Not(Box::new(term("a")))]),
        QExpr::Or(vec![]),
    ]);
    assert_eq!(compile_conjunctive(&q).unwrap_err(), Error::UnsupportedNot);
    let q = QExpr::And(vec![phrase(&["a"]), QExpr::Or(vec![])]);
    assert_eq!(compile_conjunctive(&q).unwrap_err(), Error::DegenerateConstraint);
    let q = QExpr::And(vec![
        QExpr::Field(FieldName::new("title"), Box::new(QExpr::Or(vec![]))),
        phrase(&[]),
    ]);
    assert_eq!(compile_conjunctive(&q).unwrap_err(), Error::UnsupportedField);
}

#[test]
fn bag_only_depends_on_positions() {
    let p = compile_conjunctive(&QExpr::And(vec![term("a"), term("b")])).unwrap();
    assert!(p.is_bag_only());
    let p = compile_conjunctive(&phrase(&["a", "b"])).unwrap();
    assert!(!p.is_bag_only());
    let p = compile_conjunctive(&near(&["a", "b"], 1, false)).unwrap();
    assert!(!p.is_bag_only());
}

#[test]
fn clones_are_equal() {
    let q = QExpr::And(vec![term("a"), phrase(&["b", "c"]), near(&["d", "e"], 4, true)]);
    let p = compile_conjunctive(&q).unwrap();
    assert_eq!(p.clone(), p);
    assert_eq!(p.nears[0].clone(), p.nears[0]);
    assert_eq!(Term::new("a").clone(), Term::new("a"));
    assert_eq!(Error::UnsupportedOr.clone(), Error::UnsupportedOr);
    assert_eq!(Error::UnsupportedNot.clone(), Error::UnsupportedNot);
    assert_eq!(Error::UnsupportedField.clone(), Error::UnsupportedField);
    assert_eq!(Error::DegenerateConstraint.clone(), Error::DegenerateConstraint);
    assert_eq!(Error::EmptyWindow.clone(), Error::EmptyWindow);
}

#[test]
fn error_messages() {
    assert_eq!(Error::UnsupportedOr.message(), "unsupported operator: Or");
    assert_eq!(Error::UnsupportedNot.message(), "unsupported operator: Not");
    assert_eq!(Error::UnsupportedField.message(), "unsupported operator: Field");
    assert_eq!(
        Error::DegenerateConstraint.message(),
        "constraint reduced to fewer than 2 terms after blank filtering"
    );
    assert_eq!(Error::EmptyWindow.message(), "near constraint with an empty window");
}

#[test]
fn blank_is_white_space_only() {
    for c in '\u{0}'..=char::MAX {
        assert_eq!(Term::new(&c.to_string()).is_blank(), c.is_whitespace());
    }
    assert!(Term::new("").is_blank());
    assert!(Term::new(" \t\r\n\u{2003}").is_blank());
    assert!(!Term::new("  x").is_blank());
    assert!(!Term::new("x  ").is_blank());
    // A zero width space is not white space.
    assert!(!Term::new("\u{200B}").is_blank());
    for t in ["", " ", " a ", "\u{85}\u{1680}", "\u{205F}b", "caf\u{E9}"] {
        assert_eq!(Term::new(t).is_blank(), t.trim().is_empty());
    }
}
