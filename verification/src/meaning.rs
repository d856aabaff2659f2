//! What queries and plans mean, and that compilation keeps it.

use vstd::prelude::*;

use crate::expr::{blank, QExpr};
use crate::plan::{NearModel, PlanModel};
use crate::planning::{
    gather, kept, leaf_error, leaf_nears, leaf_phrases, leaf_terms, leaves_of,
    lemma_gather_from, lemma_gather_has, lemma_no_error, plan_of,
};
use crate::texts::lemma_distinct_contains;

verus! {

/// What one document says of the parts of a query.
pub struct Reading {
    /// Whether a text occurs.
    pub term: spec_fn(Seq<char>) -> bool,
    /// Whether texts occur next to each other, in order.
    pub phrase: spec_fn(Seq<Seq<char>>) -> bool,
    /// Whether texts occur close to each other.
    pub near: spec_fn(NearModel) -> bool,
    /// Whether an expression holds within a field.
    pub field: spec_fn(Seq<char>, QExpr) -> bool,
}

impl Reading {
    /// All the texts occur.
    pub open spec fn all_terms(self, texts: Seq<Seq<char>>) -> bool {
        forall|i: int| 0 <= i < texts.len() ==> (self.term)(#[trigger] texts[i])
    }

    /// The document meets the expression. Blank terms ask for nothing.
    pub open spec fn meets(self, expr: QExpr) -> bool
        decreases expr,
    {
        match expr {
            QExpr::Term(t) => blank(t.deep_view()) || (self.term)(t.deep_view()),
            QExpr::Phrase(p) => {
                let texts = kept(p.terms.deep_view());
                self.all_terms(texts) && (self.phrase)(texts)
            },
            QExpr::Near(n) => {
                let texts = kept(n.terms.deep_view());
                self.all_terms(texts) && (self.near)(
                    NearModel { terms: texts, window: n.window as nat, ordered: n.ordered },
                )
            },
            QExpr::And(xs) => forall|i: int| 0 <= i < xs.len() ==> self.meets(#[trigger] xs[i]),
            QExpr::Or(xs) => exists|i: int| 0 <= i < xs.len() && self.meets(#[trigger] xs[i]),
            QExpr::Not(x) => !self.meets(*x),
            QExpr::Field(name, x) => (self.field)(name.0@, *x),
        }
    }

    /// The document is a candidate: it holds the whole bag.
    pub open spec fn is_candidate(self, plan: PlanModel) -> bool {
        self.all_terms(plan.bag_terms)
    }

    /// The document passes the positional constraints.
    pub open spec fn passes(self, plan: PlanModel) -> bool {
        &&& forall|i: int|
            0 <= i < plan.phrases.len() ==> (self.phrase)(#[trigger] plan.phrases[i])
        &&& forall|i: int| 0 <= i < plan.nears.len() ==> (self.near)(#[trigger] plan.nears[i])
    }

    /// The document meets each of the leaves.
    spec fn meets_all(self, leaves: Seq<QExpr>) -> bool {
        forall|i: int| 0 <= i < leaves.len() ==> self.meets(#[trigger] leaves[i])
    }
}

/// No leaf is an AND.
proof fn lemma_leaf_is_no_and(expr: QExpr, k: int)
    requires
        0 <= k < expr.leaves().len(),
    ensures
        !(expr.leaves()[k] is And),
    decreases expr,
{
    if let QExpr::And(xs) = expr {
        lemma_leaf_of_is_no_and(xs@, k);
    }
}

/// No leaf of several expressions is an AND.
proof fn lemma_leaf_of_is_no_and(xs: Seq<QExpr>, k: int)
    requires
        0 <= k < leaves_of(xs).len(),
    ensures
        !(leaves_of(xs)[k] is And),
    decreases xs,
{
    let before = leaves_of(xs.drop_last());
    if k < before.len() {
        lemma_leaf_of_is_no_and(xs.drop_last(), k);
    } else {
        lemma_leaf_is_no_and(xs.last(), k - before.len());
    }
}

/// A document meets an AND tree exactly if it meets all leaves.
proof fn lemma_meets_leaves(r: Reading, expr: QExpr)
    ensures
        r.meets(expr) <==> r.meets_all(expr.leaves()),
    decreases expr,
{
    match expr {
        QExpr::And(xs) => {
            lemma_meets_leaves_of(r, xs@);
            assert(forall|i: int| 0 <= i < xs.len() ==> #[trigger] xs[i] == xs@[i]);
        },
        _ => {
            assert(expr.leaves()[0] == expr);
        },
    }
}

/// A document meets several AND trees exactly if it meets all leaves of all of them.
proof fn lemma_meets_leaves_of(r: Reading, xs: Seq<QExpr>)
    ensures
        r.meets_all(xs) <==> r.meets_all(leaves_of(xs)),
    decreases xs,
{
    if xs.len() > 0 {
        let init = xs.drop_last();
        let a = leaves_of(init);
        let b = xs.last().leaves();
        lemma_meets_leaves_of(r, init);
        lemma_meets_leaves(r, xs.last());
        lemma_meets_concat(r, a, b);
        lemma_meets_concat(r, init, seq![xs.last()]);
        assert(init + seq![xs.last()] =~= xs);
        assert(r.meets_all(seq![xs.last()]) <==> r.meets(xs.last())) by {
            assert(seq![xs.last()][0] == xs.last());
        }
    }
}

/// A document meets two parts exactly if it meets each.
proof fn lemma_meets_concat(r: Reading, a: Seq<QExpr>, b: Seq<QExpr>)
    ensures
        r.meets_all(a + b) <==> r.meets_all(a) && r.meets_all(b),
{
    if r.meets_all(a + b) {
        assert forall|i: int| 0 <= i < a.len() implies r.meets(#[trigger] a[i]) by {
            assert((a + b)[i] == a[i]);
        }
        assert forall|i: int| 0 <= i < b.len() implies r.meets(#[trigger] b[i]) by {
            assert((a + b)[a.len() + i] == b[i]);
        }
    }
}

/// What a document that meets a leaf says of it, for the leaves of an expression that compiles.
proof fn lemma_leaf_meaning(r: Reading, expr: QExpr, k: int)
    requires
        plan_of(expr) is Ok,
        0 <= k < expr.leaves().len(),
    ensures
        r.meets(expr.leaves()[k]) <==> {
            let leaf = expr.leaves()[k];
            &&& r.all_terms(leaf_terms(leaf))
            &&& leaf is Phrase ==> (r.phrase)(leaf_phrases(leaf)[0])
            &&& leaf is Near ==> (r.near)(leaf_nears(leaf)[0])
        },
{
    let leaf = expr.leaves()[k];
    lemma_no_error(expr.leaves());
    assert(leaf_error(leaf) is None);
    lemma_leaf_is_no_and(expr, k);
    if let QExpr::Term(t) = leaf {
        reveal_with_fuel(Seq::filter, 2);
        let text = seq![t.deep_view()];
        if blank(t.deep_view()) {
            assert(kept(text) =~= Seq::empty());
        } else {
            assert(kept(text) =~= text);
            assert(text[0] == t.deep_view());
        }
    }
}

/// Compilation keeps the meaning: a document meets an expression that compiles exactly if it
/// holds the whole bag of the plan and passes its positional constraints.
///
/// So the bag is safe to generate candidates from: no document that meets the query is missed.
pub proof fn law_compilation_keeps_the_meaning(r: Reading, expr: QExpr)
    ensures
        plan_of(expr) matches Ok(plan) ==> (r.meets(expr) <==> r.is_candidate(plan) && r.passes(
            plan,
        )),
{
    if let Ok(plan) = plan_of(expr) {
        let leaves = expr.leaves();
        let terms_of = |l: QExpr| leaf_terms(l);
        let phrases_of = |l: QExpr| leaf_phrases(l);
        let nears_of = |l: QExpr| leaf_nears(l);
        let terms = gather(leaves, terms_of);
        lemma_meets_leaves(r, expr);
        if r.meets(expr) {
            assert forall|i: int| 0 <= i < plan.bag_terms.len() implies (r.term)(
                #[trigger] plan.bag_terms[i],
            ) by {
                let s = plan.bag_terms[i];
                lemma_distinct_contains(terms, s);
                let k = lemma_gather_from(leaves, terms_of, s);
                assert(r.meets(leaves[k]));
                lemma_leaf_meaning(r, expr, k);
                let ts = leaf_terms(leaves[k]);
                let j = choose|j: int| 0 <= j < ts.len() && ts[j] == s;
                assert((r.term)(ts[j]));
            }
            assert forall|i: int| 0 <= i < plan.phrases.len() implies (r.phrase)(
                #[trigger] plan.phrases[i],
            ) by {
                let k = lemma_gather_from(leaves, phrases_of, plan.phrases[i]);
                assert(r.meets(leaves[k]));
            }
            assert forall|i: int| 0 <= i < plan.nears.len() implies (r.near)(
                #[trigger] plan.nears[i],
            ) by {
                let k = lemma_gather_from(leaves, nears_of, plan.nears[i]);
                assert(r.meets(leaves[k]));
            }
        }
        if r.is_candidate(plan) && r.passes(plan) {
            assert forall|k: int| 0 <= k < leaves.len() implies r.meets(#[trigger] leaves[k]) by {
                lemma_leaf_meaning(r, expr, k);
                let ts = leaf_terms(leaves[k]);
                assert forall|j: int| 0 <= j < ts.len() implies (r.term)(#[trigger] ts[j]) by {
                    lemma_gather_has(leaves, terms_of, k, ts[j]);
                    lemma_distinct_contains(terms, ts[j]);
                    let i = choose|i: int|
                        0 <= i < plan.bag_terms.len() && plan.bag_terms[i] == ts[j];
                    assert((r.term)(plan.bag_terms[i]));
                }
                if leaves[k] is Phrase {
                    let x = leaf_phrases(leaves[k])[0];
                    assert(phrases_of(leaves[k]).contains(x));
                    lemma_gather_has(leaves, phrases_of, k, x);
                    let i = choose|i: int| 0 <= i < plan.phrases.len() && plan.phrases[i] == x;
                    assert((r.phrase)(plan.phrases[i]));
                }
                if leaves[k] is Near {
                    let x = leaf_nears(leaves[k])[0];
                    assert(nears_of(leaves[k]).contains(x));
                    lemma_gather_has(leaves, nears_of, k, x);
                    let i = choose|i: int| 0 <= i < plan.nears.len() && plan.nears[i] == x;
                    assert((r.near)(plan.nears[i]));
                }
            }
        }
    }
}

} // verus!
