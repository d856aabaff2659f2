//! What holds of every compilation.
//!
//! The laws speak of [`plan_of`], the plan that [`compile_conjunctive`] is proved to return.
//!
//! [`compile_conjunctive`]: crate::compile::compile_conjunctive

use vstd::prelude::*;

use crate::error::Error;
use crate::expr::{blank, FieldName, Near, Phrase, QExpr, Term};
use crate::plan::{all_within, none_blank, ConjunctivePlan, NearModel, PlanModel};
use crate::planning::{
    degenerate, distinct, first_error, gather, kept, leaf_error, leaf_nears, leaf_phrases,
    leaf_terms, leaves_of, lemma_error_from, lemma_first_error_concat, lemma_gather_concat, lemma_gather_from,
    lemma_gather_has, lemma_leaves_concat, lemma_no_error, lemma_single_leaf, outcome,
    plan_of,
};
use crate::texts::{
    lemma_distinct_concat, lemma_distinct_contains, lemma_distinct_no_duplicates,
    lemma_distinct_order, occurs_first, stands_before,
};

verus! {

/// What [`kept`] keeps is not blank.
proof fn lemma_kept_not_blank(texts: Seq<Seq<char>>)
    ensures
        none_blank(kept(texts)),
{
    let keep = |t: Seq<char>| !blank(t);
    assert forall|i: int| 0 <= i < kept(texts).len() implies !blank(
        #[trigger] kept(texts)[i],
    ) by {
        texts.lemma_filter_pred(keep, i);
    }
}

/// Every compiled plan is well formed: its bag holds no text twice and no blank one, each of
/// its positional constraints relates at least two terms that stand in the bag, and each of its
/// windows is positive.
pub proof fn law_plans_are_well_formed(expr: QExpr)
    ensures
        plan_of(expr) matches Ok(plan) ==> plan.well_formed(),
{
    if let Ok(plan) = plan_of(expr) {
        let leaves = expr.leaves();
        let terms_of = |l: QExpr| leaf_terms(l);
        let phrases_of = |l: QExpr| leaf_phrases(l);
        let nears_of = |l: QExpr| leaf_nears(l);
        let terms = gather(leaves, terms_of);
        lemma_no_error(leaves);
        lemma_distinct_no_duplicates(terms);
        assert forall|i: int| 0 <= i < plan.bag_terms.len() implies !blank(
            #[trigger] plan.bag_terms[i],
        ) by {
            let s = plan.bag_terms[i];
            lemma_distinct_contains(terms, s);
            let k = lemma_gather_from(leaves, terms_of, s);
            lemma_leaf_terms_not_blank(leaves[k]);
            let ts = leaf_terms(leaves[k]);
            let j = choose|j: int| 0 <= j < ts.len() && ts[j] == s;
            assert(!blank(ts[j]));
        }
        assert forall|i: int| 0 <= i < plan.phrases.len() implies (
        #[trigger] plan.phrases[i]).len() >= 2 && all_within(plan.phrases[i], plan.bag_terms) by {
            let k = lemma_gather_from(leaves, phrases_of, plan.phrases[i]);
            assert(leaf_error(leaves[k]) is None);
            assert(leaf_phrases(leaves[k])[0] == leaf_terms(leaves[k]));
            lemma_leaf_terms_within(expr, k);
        }
        assert forall|i: int| 0 <= i < plan.nears.len() implies (
        #[trigger] plan.nears[i]).terms.len() >= 2 && plan.nears[i].window > 0 && all_within(
            plan.nears[i].terms,
            plan.bag_terms,
        ) by {
            let k = lemma_gather_from(leaves, nears_of, plan.nears[i]);
            assert(leaf_error(leaves[k]) is None);
            assert(leaf_nears(leaves[k])[0].terms == leaf_terms(leaves[k]));
            lemma_leaf_terms_within(expr, k);
        }
    }
}

/// No leaf contributes a blank text.
proof fn lemma_leaf_terms_not_blank(leaf: QExpr)
    ensures
        none_blank(leaf_terms(leaf)),
{
    match leaf {
        QExpr::Term(t) => lemma_kept_not_blank(seq![t.deep_view()]),
        QExpr::Phrase(p) => lemma_kept_not_blank(p.terms.deep_view()),
        QExpr::Near(n) => lemma_kept_not_blank(n.terms.deep_view()),
        _ => {},
    }
}

/// What a leaf contributes stands in the bag.
proof fn lemma_leaf_terms_within(expr: QExpr, k: int)
    requires
        0 <= k < expr.leaves().len(),
    ensures
        all_within(
            leaf_terms(expr.leaves()[k]),
            distinct(gather(expr.leaves(), |l: QExpr| leaf_terms(l))),
        ),
{
    let terms_of = |l: QExpr| leaf_terms(l);
    let ts = leaf_terms(expr.leaves()[k]);
    assert forall|i: int| 0 <= i < ts.len() implies distinct(
        gather(expr.leaves(), terms_of),
    ).contains(#[trigger] ts[i]) by {
        lemma_gather_has(expr.leaves(), terms_of, k, ts[i]);
        lemma_distinct_contains(gather(expr.leaves(), terms_of), ts[i]);
    }
}

/// An expression is supported if it is an AND tree over terms, over phrases that keep two terms
/// without their blank ones, and over proximity constraints that do so too and have a positive
/// window.
pub open spec fn supported(expr: QExpr) -> bool
    decreases expr,
{
    match expr {
        QExpr::Term(_) => true,
        QExpr::Phrase(p) => kept(p.terms.deep_view()).len() >= 2,
        QExpr::Near(n) => kept(n.terms.deep_view()).len() >= 2 && n.window > 0,
        QExpr::And(xs) => forall|i: int| 0 <= i < xs.len() ==> supported(#[trigger] xs[i]),
        _ => false,
    }
}

/// The supported expressions are exactly those that compile.
pub proof fn law_supported_compiles(expr: QExpr)
    ensures
        plan_of(expr) is Ok <==> supported(expr),
    decreases expr,
{
    match expr {
        QExpr::And(xs) => {
            assert forall|i: int| 0 <= i < xs.len() implies (first_error(
                (#[trigger] xs[i]).leaves(),
            ) is None <==> supported(xs[i])) by {
                law_supported_compiles(xs[i]);
            }
            lemma_operands_without_error(xs@);
        },
        _ => {
            lemma_single_leaf(expr, |l: QExpr| leaf_terms(l));
        },
    }
}

/// Operands have no error together exactly if none of them has one.
proof fn lemma_operands_without_error(xs: Seq<QExpr>)
    ensures
        first_error(leaves_of(xs)) is None <==> forall|i: int|
            0 <= i < xs.len() ==> first_error((#[trigger] xs[i]).leaves()) is None,
    decreases xs.len(),
{
    if xs.len() > 0 {
        let init = xs.drop_last();
        lemma_operands_without_error(init);
        lemma_first_error_concat(leaves_of(init), xs.last().leaves());
        assert forall|i: int| 0 <= i < init.len() implies #[trigger] init[i] == xs[i] by {}
        if first_error(leaves_of(xs)) is None {
            assert forall|i: int| 0 <= i < xs.len() implies first_error(
                (#[trigger] xs[i]).leaves(),
            ) is None by {
                if i < init.len() {
                    assert(first_error(init[i].leaves()) is None);
                }
            }
        }
    }
}

/// All texts of an expression that are not blank, from left to right, below every operator.
pub open spec fn collect_terms(expr: QExpr) -> Seq<Seq<char>>
    decreases expr,
{
    match expr {
        QExpr::And(xs) => collect_all(xs@),
        QExpr::Or(xs) => collect_all(xs@),
        QExpr::Not(x) => collect_terms(*x),
        QExpr::Field(_, x) => collect_terms(*x),
        _ => leaf_terms(expr),
    }
}

/// All texts of several expressions that are not blank, one expression after the other.
pub open spec fn collect_all(xs: Seq<QExpr>) -> Seq<Seq<char>>
    decreases xs,
{
    if xs.len() == 0 {
        Seq::empty()
    } else {
        collect_all(xs.drop_last()) + collect_terms(xs.last())
    }
}

/// The leaves of an expression that compiles hold all of its texts.
proof fn lemma_leaves_hold_all_terms(expr: QExpr)
    requires
        first_error(expr.leaves()) is None,
    ensures
        gather(expr.leaves(), |l: QExpr| leaf_terms(l)) == collect_terms(expr),
    decreases expr,
{
    match expr {
        QExpr::And(xs) => lemma_leaves_hold_all_terms_of(xs@),
        _ => lemma_single_leaf(expr, |l: QExpr| leaf_terms(l)),
    }
}

/// The leaves of operands that compile hold all of their texts.
proof fn lemma_leaves_hold_all_terms_of(xs: Seq<QExpr>)
    requires
        first_error(leaves_of(xs)) is None,
    ensures
        gather(leaves_of(xs), |l: QExpr| leaf_terms(l)) == collect_all(xs),
    decreases xs,
{
    if xs.len() > 0 {
        let init = xs.drop_last();
        lemma_first_error_concat(leaves_of(init), xs.last().leaves());
        lemma_gather_concat(leaves_of(init), xs.last().leaves(), |l: QExpr| leaf_terms(l));
        lemma_leaves_hold_all_terms_of(init);
        lemma_leaves_hold_all_terms(xs.last());
    }
}

/// The bag of a compiled plan holds each text of the expression that is not blank, and no other
/// text, in the order in which the texts first occur.
pub proof fn law_bag_holds_the_terms(expr: QExpr)
    ensures
        plan_of(expr) matches Ok(plan) ==> {
            &&& plan.bag_terms == distinct(collect_terms(expr))
            &&& plan.bag_terms.to_set() == collect_terms(expr).to_set()
            &&& forall|p: int, q: int| #[trigger]
                occurs_first(collect_terms(expr), p) && #[trigger] occurs_first(
                    collect_terms(expr),
                    q,
                ) && p < q ==> stands_before(
                    plan.bag_terms,
                    collect_terms(expr)[p],
                    collect_terms(expr)[q],
                )
        },
{
    if let Ok(plan) = plan_of(expr) {
        let all = collect_terms(expr);
        lemma_leaves_hold_all_terms(expr);
        assert forall|s: Seq<char>|
            plan.bag_terms.to_set().contains(s) <==> #[trigger] all.to_set().contains(s) by {
            lemma_distinct_contains(all, s);
        }
        assert(plan.bag_terms.to_set() =~= all.to_set());
        assert forall|p: int, q: int| #[trigger]
            occurs_first(all, p) && #[trigger] occurs_first(all, q) && p
                < q implies stands_before(plan.bag_terms, all[p], all[q]) by {
            lemma_distinct_order(all, p, q);
        }
    }
}

/// A phrase without blank terms compiles to itself: its terms in their order.
pub proof fn law_phrase_keeps_its_order(p: Phrase)
    requires
        p.terms.len() >= 2,
        none_blank(p.terms.deep_view()),
    ensures
        plan_of(QExpr::Phrase(p)) == Ok::<PlanModel, Error>(
            PlanModel {
                bag_terms: distinct(p.terms.deep_view()),
                phrases: seq![p.terms.deep_view()],
                nears: Seq::empty(),
            },
        ),
{
    lemma_kept_all(p.terms.deep_view());
    lemma_single_plan(QExpr::Phrase(p));
}

/// A proximity constraint without blank terms compiles to itself: its terms in their order, its
/// window, and whether the order counts.
pub proof fn law_near_keeps_its_order(n: Near)
    requires
        n.terms.len() >= 2,
        none_blank(n.terms.deep_view()),
        n.window > 0,
    ensures
        plan_of(QExpr::Near(n)) == Ok::<PlanModel, Error>(
            PlanModel {
                bag_terms: distinct(n.terms.deep_view()),
                phrases: Seq::empty(),
                nears: seq![
                    NearModel {
                        terms: n.terms.deep_view(),
                        window: n.window as nat,
                        ordered: n.ordered,
                    },
                ],
            },
        ),
{
    lemma_kept_all(n.terms.deep_view());
    lemma_single_plan(QExpr::Near(n));
}

/// Texts none of which is blank are all kept.
proof fn lemma_kept_all(texts: Seq<Seq<char>>)
    requires
        none_blank(texts),
    ensures
        kept(texts) == texts,
    decreases texts.len(),
{
    reveal(Seq::filter);
    if texts.len() > 0 {
        let init = texts.drop_last();
        assert forall|i: int| 0 <= i < init.len() implies !blank(#[trigger] init[i]) by {
            assert(init[i] == texts[i]);
        }
        lemma_kept_all(init);
        assert(!blank(texts[texts.len() - 1]));
        assert(kept(texts) =~= texts);
    }
}

/// The plan of an expression that is a leaf itself.
pub proof fn lemma_single_plan(leaf: QExpr)
    requires
        !(leaf is And),
    ensures
        plan_of(leaf) == match leaf_error(leaf) {
            Some(e) => Err::<PlanModel, Error>(e),
            None => Ok(
                PlanModel {
                    bag_terms: distinct(leaf_terms(leaf)),
                    phrases: leaf_phrases(leaf),
                    nears: leaf_nears(leaf),
                },
            ),
        },
{
    lemma_single_leaf(leaf, |l: QExpr| leaf_terms(l));
    lemma_single_leaf(leaf, |l: QExpr| leaf_phrases(l));
    lemma_single_leaf(leaf, |l: QExpr| leaf_nears(l));
}

/// OR is rejected, whatever its operands.
pub proof fn law_or_is_rejected(xs: Vec<QExpr>)
    ensures
        plan_of(QExpr::Or(xs)) == Err::<PlanModel, Error>(Error::UnsupportedOr),
{
    lemma_single_plan(QExpr::Or(xs));
}

/// NOT is rejected, whatever its operand.
pub proof fn law_not_is_rejected(x: Box<QExpr>)
    ensures
        plan_of(QExpr::Not(x)) == Err::<PlanModel, Error>(Error::UnsupportedNot),
{
    lemma_single_plan(QExpr::Not(x));
}

/// Field scoping is rejected, whatever the field and the operand.
pub proof fn law_field_is_rejected(name: FieldName, x: Box<QExpr>)
    ensures
        plan_of(QExpr::Field(name, x)) == Err::<PlanModel, Error>(Error::UnsupportedField),
{
    lemma_single_plan(QExpr::Field(name, x));
}

/// A phrase is degenerate exactly if it keeps fewer than two terms without its blank ones.
pub proof fn law_degenerate_phrase_is_rejected(p: Phrase)
    ensures
        plan_of(QExpr::Phrase(p)) == Err::<PlanModel, Error>(Error::DegenerateConstraint) <==> kept(
            p.terms.deep_view(),
        ).len() < 2,
{
    lemma_single_plan(QExpr::Phrase(p));
}

/// A proximity constraint is degenerate exactly if it keeps fewer than two terms without its
/// blank ones.
pub proof fn law_degenerate_near_is_rejected(n: Near)
    ensures
        plan_of(QExpr::Near(n)) == Err::<PlanModel, Error>(Error::DegenerateConstraint) <==> kept(
            n.terms.deep_view(),
        ).len() < 2,
{
    lemma_single_plan(QExpr::Near(n));
}

/// A proximity constraint that keeps two terms is rejected exactly if its window is empty.
pub proof fn law_empty_window_is_rejected(n: Near)
    ensures
        plan_of(QExpr::Near(n)) == Err::<PlanModel, Error>(Error::EmptyWindow) <==> kept(
            n.terms.deep_view(),
        ).len() >= 2 && n.window == 0,
{
    lemma_single_plan(QExpr::Near(n));
}

/// The error is true of the leaf.
pub open spec fn at_fault(leaf: QExpr, e: Error) -> bool {
    match e {
        Error::UnsupportedOr => leaf is Or,
        Error::UnsupportedNot => leaf is Not,
        Error::UnsupportedField => leaf is Field,
        Error::DegenerateConstraint => degenerate(leaf),
        Error::EmptyWindow => leaf matches QExpr::Near(n) && n.window == 0,
    }
}

/// Every error is true of some leaf of the expression.
pub proof fn law_errors_have_a_leaf_at_fault(expr: QExpr, e: Error)
    requires
        plan_of(expr) == Err::<PlanModel, Error>(e),
    ensures
        exists|i: int| 0 <= i < expr.leaves().len() && at_fault(#[trigger] expr.leaves()[i], e),
{
    let i = lemma_error_from(expr.leaves(), e);
    assert(at_fault(expr.leaves()[i], e));
}

/// Where a constraint is reported as degenerate, some phrase or proximity constraint of the
/// expression keeps fewer than two terms without its blank ones.
pub proof fn law_degenerate_result_has_a_short_leaf(expr: QExpr)
    requires
        plan_of(expr) == Err::<PlanModel, Error>(Error::DegenerateConstraint),
    ensures
        exists|i: int| 0 <= i < expr.leaves().len() && degenerate(#[trigger] expr.leaves()[i]),
{
    let i = lemma_error_from(expr.leaves(), Error::DegenerateConstraint);
    assert(degenerate(expr.leaves()[i]));
}

/// A term that is not blank compiles to a bag with that term, a blank one to an empty plan.
pub proof fn law_term_compiles(t: Term)
    ensures
        plan_of(QExpr::Term(t)) == Ok::<PlanModel, Error>(
            PlanModel {
                bag_terms: if blank(t.deep_view()) {
                    Seq::empty()
                } else {
                    seq![t.deep_view()]
                },
                phrases: Seq::empty(),
                nears: Seq::empty(),
            },
        ),
{
    let text = seq![t.deep_view()];
    lemma_single_plan(QExpr::Term(t));
    reveal_with_fuel(Seq::filter, 2);
    reveal_with_fuel(distinct, 2);
    if blank(t.deep_view()) {
        assert(kept(text) =~= Seq::empty());
    } else {
        assert(kept(text) =~= text);
        assert(distinct(text) =~= text);
    }
}

/// A blank term in a phrase changes nothing.
pub proof fn law_blank_in_phrase_is_ignored(
    p: Phrase,
    q: Phrase,
    a: Seq<Seq<char>>,
    s: Seq<char>,
    b: Seq<Seq<char>>,
)
    requires
        blank(s),
        p.terms.deep_view() == a + seq![s] + b,
        q.terms.deep_view() == a + b,
    ensures
        plan_of(QExpr::Phrase(p)) == plan_of(QExpr::Phrase(q)),
{
    lemma_kept_without_blank(a, s, b);
    lemma_single_plan(QExpr::Phrase(p));
    lemma_single_plan(QExpr::Phrase(q));
}

/// A blank term in a proximity constraint changes nothing.
pub proof fn law_blank_in_near_is_ignored(
    n: Near,
    m: Near,
    a: Seq<Seq<char>>,
    s: Seq<char>,
    b: Seq<Seq<char>>,
)
    requires
        blank(s),
        n.terms.deep_view() == a + seq![s] + b,
        m.terms.deep_view() == a + b,
        n.window == m.window,
        n.ordered == m.ordered,
    ensures
        plan_of(QExpr::Near(n)) == plan_of(QExpr::Near(m)),
{
    lemma_kept_without_blank(a, s, b);
    lemma_single_plan(QExpr::Near(n));
    lemma_single_plan(QExpr::Near(m));
}

/// A blank term among the operands of an AND changes nothing.
pub proof fn law_blank_in_and_is_ignored(
    xs: Vec<QExpr>,
    ys: Vec<QExpr>,
    a: Seq<QExpr>,
    t: Term,
    b: Seq<QExpr>,
)
    requires
        blank(t.deep_view()),
        xs@ == a + seq![QExpr::Term(t)] + b,
        ys@ == a + b,
    ensures
        plan_of(QExpr::And(xs)) == plan_of(QExpr::And(ys)),
{
    let leaf = QExpr::Term(t);
    let (la, lb) = (leaves_of(a), leaves_of(b));
    lemma_leaves_concat(a + seq![leaf], b);
    lemma_leaves_concat(a, seq![leaf]);
    lemma_leaves_concat(a, b);
    lemma_leaves_of_one(leaf);
    assert(leaf.leaves() == seq![leaf]);
    reveal_with_fuel(Seq::filter, 2);
    assert(leaf_terms(leaf) =~= Seq::empty());
    lemma_leaf_without_part(la, leaf, lb, |l: QExpr| leaf_terms(l));
    lemma_leaf_without_part(la, leaf, lb, |l: QExpr| leaf_phrases(l));
    lemma_leaf_without_part(la, leaf, lb, |l: QExpr| leaf_nears(l));
}

/// A leaf that contributes nothing and has no error does not show among others.
proof fn lemma_leaf_without_part<A>(
    a: Seq<QExpr>,
    leaf: QExpr,
    b: Seq<QExpr>,
    part: spec_fn(QExpr) -> Seq<A>,
)
    requires
        leaf_error(leaf) is None,
        part(leaf).len() == 0,
    ensures
        gather(a + seq![leaf] + b, part) == gather(a + b, part),
        first_error(a + seq![leaf] + b) == first_error(a + b),
{
    lemma_single_leaf(leaf, part);
    lemma_gather_concat(a + seq![leaf], b, part);
    lemma_gather_concat(a, seq![leaf], part);
    lemma_gather_concat(a, b, part);
    lemma_first_error_concat(a + seq![leaf], b);
    lemma_first_error_concat(a, seq![leaf]);
    lemma_first_error_concat(a, b);
    assert(gather(a, part) + part(leaf) =~= gather(a, part));
}

/// A blank text among others is not kept.
proof fn lemma_kept_without_blank(a: Seq<Seq<char>>, s: Seq<char>, b: Seq<Seq<char>>)
    requires
        blank(s),
    ensures
        kept(a + seq![s] + b) == kept(a + b),
{
    let keep = |t: Seq<char>| !blank(t);
    reveal_with_fuel(Seq::filter, 2);
    Seq::filter_distributes_over_add(a + seq![s], b, keep);
    Seq::filter_distributes_over_add(a, seq![s], keep);
    Seq::filter_distributes_over_add(a, b, keep);
    assert(seq![s].filter(keep) =~= Seq::empty());
    assert(a.filter(keep) + Seq::empty() =~= a.filter(keep));
}

/// An AND without operands compiles to the empty plan.
pub proof fn law_empty_and_compiles(xs: Vec<QExpr>)
    requires
        xs.len() == 0,
    ensures
        plan_of(QExpr::And(xs)) == Ok::<PlanModel, Error>(
            PlanModel {
                bag_terms: Seq::empty(),
                phrases: Seq::empty(),
                nears: Seq::empty(),
            },
        ),
{
    reveal_with_fuel(QExpr::leaves, 2);
    reveal_with_fuel(leaves_of, 2);
    assert(QExpr::And(xs).leaves() =~= Seq::empty());
}

/// An AND of one operand compiles as that operand does.
pub proof fn law_and_of_one(xs: Vec<QExpr>, x: QExpr)
    requires
        xs@ == seq![x],
    ensures
        plan_of(QExpr::And(xs)) == plan_of(x),
{
    lemma_leaves_of_one(x);
}

/// One operand has its own leaves.
proof fn lemma_leaves_of_one(x: QExpr)
    ensures
        leaves_of(seq![x]) == x.leaves(),
{
    assert(leaves_of(seq![x].drop_last()) =~= Seq::empty());
    assert(leaves_of(seq![x]) =~= x.leaves());
}

/// How ANDs are nested does not matter: an AND among the operands compiles as if its own
/// operands stood in its place.
pub proof fn law_nesting_does_not_matter(
    nested: Vec<QExpr>,
    flat: Vec<QExpr>,
    a: Seq<QExpr>,
    inner: Vec<QExpr>,
    b: Seq<QExpr>,
)
    requires
        nested@ == a + seq![QExpr::And(inner)] + b,
        flat@ == a + inner@ + b,
    ensures
        plan_of(QExpr::And(nested)) == plan_of(QExpr::And(flat)),
{
    lemma_leaves_concat(a + seq![QExpr::And(inner)], b);
    lemma_leaves_concat(a, seq![QExpr::And(inner)]);
    lemma_leaves_concat(a + inner@, b);
    lemma_leaves_concat(a, inner@);
    lemma_leaves_of_one(QExpr::And(inner));
}

/// The plan of an AND is made of the plans of its parts: it exists if each part has one, its
/// bag holds the first occurrences of both bags, and its constraints are those of one part and
/// then those of the other. The error is that of the former part, or else that of the latter.
pub proof fn law_and_composes(xs: Vec<QExpr>, left: Vec<QExpr>, right: Vec<QExpr>)
    requires
        xs@ == left@ + right@,
    ensures
        plan_of(QExpr::And(xs)) == match (plan_of(QExpr::And(left)), plan_of(QExpr::And(right))) {
            (Ok(l), Ok(r)) => Ok::<PlanModel, Error>(
                PlanModel {
                    bag_terms: distinct(l.bag_terms + r.bag_terms),
                    phrases: l.phrases + r.phrases,
                    nears: l.nears + r.nears,
                },
            ),
            (Ok(_), Err(e)) => Err(e),
            (Err(e), _) => Err(e),
        },
{
    let l = leaves_of(left@);
    let r = leaves_of(right@);
    let terms_of = |x: QExpr| leaf_terms(x);
    lemma_leaves_concat(left@, right@);
    lemma_first_error_concat(l, r);
    lemma_gather_concat(l, r, terms_of);
    lemma_gather_concat(l, r, |x: QExpr| leaf_phrases(x));
    lemma_gather_concat(l, r, |x: QExpr| leaf_nears(x));
    lemma_distinct_concat(gather(l, terms_of), gather(r, terms_of));
}

/// An AND fails with the error of its first operand that fails.
pub proof fn law_first_error_wins(xs: Vec<QExpr>, k: int, e: Error)
    requires
        0 <= k < xs.len(),
        forall|j: int| 0 <= j < k ==> plan_of(#[trigger] xs[j]) is Ok,
        plan_of(xs[k]) == Err::<PlanModel, Error>(e),
    ensures
        plan_of(QExpr::And(xs)) == Err::<PlanModel, Error>(e),
{
    let before = xs@.take(k);
    let upto = xs@.take(k + 1);
    let after = xs@.skip(k + 1);
    assert forall|j: int| 0 <= j < before.len() implies first_error(
        (#[trigger] before[j]).leaves(),
    ) is None by {
        assert(plan_of(xs[j]) is Ok);
    }
    lemma_operands_without_error(before);
    assert(upto.drop_last() =~= before);
    assert(upto.last() == xs[k]);
    lemma_first_error_concat(leaves_of(before), xs[k].leaves());
    assert(xs@ =~= upto + after);
    lemma_leaves_concat(upto, after);
    lemma_first_error_concat(leaves_of(upto), leaves_of(after));
}

/// Compilation is deterministic: two compilations of one expression have the same outcome.
pub proof fn law_compilation_is_deterministic(
    expr: QExpr,
    a: Result<ConjunctivePlan, Error>,
    b: Result<ConjunctivePlan, Error>,
)
    requires
        outcome(a) == plan_of(expr),
        outcome(b) == plan_of(expr),
    ensures
        outcome(a) == outcome(b),
{
}

/// A leaf that is a positional constraint.
pub open spec fn positional(leaf: QExpr) -> bool {
    leaf is Phrase || leaf is Near
}

/// A compiled plan has no positional constraints exactly if the expression has none.
pub proof fn law_bag_only_without_positions(expr: QExpr)
    ensures
        plan_of(expr) matches Ok(plan) ==> (plan.bag_only() <==> forall|i: int|
            0 <= i < expr.leaves().len() ==> !positional(#[trigger] expr.leaves()[i])),
{
    if let Ok(plan) = plan_of(expr) {
        let leaves = expr.leaves();
        let phrases_of = |l: QExpr| leaf_phrases(l);
        let nears_of = |l: QExpr| leaf_nears(l);
        assert forall|i: int| 0 <= i < leaves.len() && plan.bag_only() implies !positional(
            #[trigger] leaves[i],
        ) by {
            if leaves[i] is Phrase {
                let x = leaf_phrases(leaves[i])[0];
                assert(phrases_of(leaves[i]).contains(x));
                lemma_gather_has(leaves, phrases_of, i, x);
            }
            if leaves[i] is Near {
                let x = leaf_nears(leaves[i])[0];
                assert(nears_of(leaves[i]).contains(x));
                lemma_gather_has(leaves, nears_of, i, x);
            }
        }
        if plan.phrases.len() > 0 {
            assert(plan.phrases.contains(plan.phrases[0]));
            let k = lemma_gather_from(leaves, phrases_of, plan.phrases[0]);
            assert(positional(leaves[k]));
        }
        if plan.nears.len() > 0 {
            assert(plan.nears.contains(plan.nears[0]));
            let k = lemma_gather_from(leaves, nears_of, plan.nears[0]);
            assert(positional(leaves[k]));
        }
    }
}

} // verus!
