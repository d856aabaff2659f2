//! Which plan an expression has, as a mathematical definition.
//!
//! An AND tree is read as the sequence of its leaves, from left to right. Each leaf has an
//! error or contributes texts to the bag, a phrase or a proximity constraint. The expression
//! fails with the error of its first failing leaf, and otherwise has the plan that gathers
//! what its leaves contribute.

use vstd::prelude::*;

use crate::error::Error;
use crate::expr::{blank, QExpr};
use crate::plan::{ConjunctivePlan, NearModel, PlanModel};

verus! {

impl QExpr {
    /// The nodes below the AND tree at the top, from left to right.
    pub open spec fn leaves(self) -> Seq<QExpr>
        decreases self,
    {
        match self {
            QExpr::And(xs) => leaves_of(xs@),
            _ => seq![self],
        }
    }
}

/// The leaves of several expressions, one after the other.
pub open spec fn leaves_of(xs: Seq<QExpr>) -> Seq<QExpr>
    decreases xs,
{
    if xs.len() == 0 {
        Seq::empty()
    } else {
        leaves_of(xs.drop_last()) + xs.last().leaves()
    }
}

/// The texts that are not blank, in order.
pub open spec fn kept(texts: Seq<Seq<char>>) -> Seq<Seq<char>> {
    texts.filter(|t: Seq<char>| !blank(t))
}

/// A leaf is degenerate if it is a phrase or a proximity constraint that keeps fewer than two
/// terms without its blank ones.
pub open spec fn degenerate(leaf: QExpr) -> bool {
    match leaf {
        QExpr::Phrase(p) => kept(p.terms.deep_view()).len() < 2,
        QExpr::Near(n) => kept(n.terms.deep_view()).len() < 2,
        _ => false,
    }
}

/// The error of a leaf, if it has one. A proximity constraint that keeps too few terms is
/// degenerate, whatever its window.
pub open spec fn leaf_error(leaf: QExpr) -> Option<Error> {
    match leaf {
        _ if degenerate(leaf) => Some(Error::DegenerateConstraint),
        QExpr::Near(n) if n.window == 0 => Some(Error::EmptyWindow),
        QExpr::Or(_) => Some(Error::UnsupportedOr),
        QExpr::Not(_) => Some(Error::UnsupportedNot),
        QExpr::Field(_, _) => Some(Error::UnsupportedField),
        _ => None,
    }
}

/// The texts that a leaf contributes to the bag.
pub open spec fn leaf_terms(leaf: QExpr) -> Seq<Seq<char>> {
    match leaf {
        QExpr::Term(t) => kept(seq![t.deep_view()]),
        QExpr::Phrase(p) => kept(p.terms.deep_view()),
        QExpr::Near(n) => kept(n.terms.deep_view()),
        _ => Seq::empty(),
    }
}

/// The phrase that a leaf contributes, if it is one.
pub open spec fn leaf_phrases(leaf: QExpr) -> Seq<Seq<Seq<char>>> {
    match leaf {
        QExpr::Phrase(p) => seq![kept(p.terms.deep_view())],
        _ => Seq::empty(),
    }
}

/// The proximity constraint that a leaf contributes, if it is one.
pub open spec fn leaf_nears(leaf: QExpr) -> Seq<NearModel> {
    match leaf {
        QExpr::Near(n) => seq![
            NearModel {
                terms: kept(n.terms.deep_view()),
                window: n.window as nat,
                ordered: n.ordered,
            },
        ],
        _ => Seq::empty(),
    }
}

/// What the leaves contribute, one after the other.
pub open spec fn gather<A>(leaves: Seq<QExpr>, part: spec_fn(QExpr) -> Seq<A>) -> Seq<A>
    decreases leaves.len(),
{
    if leaves.len() == 0 {
        Seq::empty()
    } else {
        gather(leaves.drop_last(), part) + part(leaves.last())
    }
}

/// The error of the first leaf that has one.
pub open spec fn first_error(leaves: Seq<QExpr>) -> Option<Error>
    decreases leaves.len(),
{
    if leaves.len() == 0 {
        None
    } else {
        match first_error(leaves.drop_last()) {
            Some(e) => Some(e),
            None => leaf_error(leaves.last()),
        }
    }
}

/// The first occurrence of each text, in order.
pub open spec fn distinct(texts: Seq<Seq<char>>) -> Seq<Seq<char>>
    decreases texts.len(),
{
    if texts.len() == 0 {
        Seq::empty()
    } else {
        let init = distinct(texts.drop_last());
        if texts.drop_last().contains(texts.last()) {
            init
        } else {
            init.push(texts.last())
        }
    }
}

/// The plan of an expression, or the error for which it has none.
pub open spec fn plan_of(expr: QExpr) -> Result<PlanModel, Error> {
    match first_error(expr.leaves()) {
        Some(e) => Err(e),
        None => Ok(
            PlanModel {
                bag_terms: distinct(gather(expr.leaves(), |l: QExpr| leaf_terms(l))),
                phrases: gather(expr.leaves(), |l: QExpr| leaf_phrases(l)),
                nears: gather(expr.leaves(), |l: QExpr| leaf_nears(l)),
            },
        ),
    }
}

/// What a compilation returned, as a model.
pub open spec fn outcome(r: Result<ConjunctivePlan, Error>) -> Result<PlanModel, Error> {
    match r {
        Ok(plan) => Ok(plan.deep_view()),
        Err(e) => Err(e),
    }
}

/// What a single leaf contributes, and the error that it has.
pub proof fn lemma_single_leaf<A>(leaf: QExpr, part: spec_fn(QExpr) -> Seq<A>)
    ensures
        gather(seq![leaf], part) == part(leaf),
        first_error(seq![leaf]) == leaf_error(leaf),
{
    let none = seq![leaf].drop_last();
    assert(none.len() == 0);
    assert(gather(none, part) == Seq::<A>::empty());
    assert(first_error(none) is None);
    assert(Seq::<A>::empty() + part(leaf) =~= part(leaf));
}

/// What the leaves of two parts contribute is what each part contributes, in turn.
pub proof fn lemma_gather_concat<A>(
    a: Seq<QExpr>,
    b: Seq<QExpr>,
    part: spec_fn(QExpr) -> Seq<A>,
)
    ensures
        gather(a + b, part) == gather(a, part) + gather(b, part),
    decreases b.len(),
{
    if b.len() == 0 {
        assert(a + b =~= a);
        assert(gather(a, part) + gather(b, part) =~= gather(a, part));
    } else {
        assert((a + b).drop_last() =~= a + b.drop_last());
        lemma_gather_concat(a, b.drop_last(), part);
        assert(gather(a + b, part) =~= gather(a, part) + gather(b, part));
    }
}

/// The first error of two parts is that of the former part, or else that of the latter.
pub proof fn lemma_first_error_concat(a: Seq<QExpr>, b: Seq<QExpr>)
    ensures
        first_error(a + b) == match first_error(a) {
            Some(e) => Some(e),
            None => first_error(b),
        },
    decreases b.len(),
{
    if b.len() == 0 {
        assert(a + b =~= a);
    } else {
        assert((a + b).drop_last() =~= a + b.drop_last());
        lemma_first_error_concat(a, b.drop_last());
    }
}

/// The leaves of two lists of operands are those of each list, in turn.
pub proof fn lemma_leaves_concat(xs: Seq<QExpr>, ys: Seq<QExpr>)
    ensures
        leaves_of(xs + ys) == leaves_of(xs) + leaves_of(ys),
    decreases ys.len(),
{
    if ys.len() == 0 {
        assert(xs + ys =~= xs);
        assert(leaves_of(xs) + leaves_of(ys) =~= leaves_of(xs));
    } else {
        assert((xs + ys).drop_last() =~= xs + ys.drop_last());
        lemma_leaves_concat(xs, ys.drop_last());
        assert(leaves_of(xs + ys) =~= leaves_of(xs) + leaves_of(ys));
    }
}

/// No leaf fails exactly if there is no first error.
pub proof fn lemma_no_error(leaves: Seq<QExpr>)
    ensures
        first_error(leaves) is None <==> forall|i: int|
            0 <= i < leaves.len() ==> leaf_error(#[trigger] leaves[i]) is None,
    decreases leaves.len(),
{
    if leaves.len() > 0 {
        let init = leaves.drop_last();
        lemma_no_error(init);
        assert forall|i: int| 0 <= i < init.len() implies #[trigger] init[i] == leaves[i] by {}
        if first_error(leaves) is None {
            assert forall|i: int| 0 <= i < leaves.len() implies leaf_error(
                #[trigger] leaves[i],
            ) is None by {
                if i < init.len() {
                    assert(leaf_error(init[i]) is None);
                }
            }
        }
    }
}

/// The first error is that of a leaf before which no leaf has one.
pub proof fn lemma_error_from(leaves: Seq<QExpr>, e: Error) -> (i: int)
    requires
        first_error(leaves) == Some(e),
    ensures
        0 <= i < leaves.len(),
        leaf_error(leaves[i]) == Some(e),
        forall|j: int| 0 <= j < i ==> leaf_error(#[trigger] leaves[j]) is None,
    decreases leaves.len(),
{
    let init = leaves.drop_last();
    assert forall|j: int| 0 <= j < init.len() implies #[trigger] leaves[j] == init[j] by {}
    if first_error(init) is Some {
        lemma_error_from(init, e)
    } else {
        lemma_no_error(init);
        leaves.len() - 1
    }
}

/// Everything that a leaf contributes is gathered.
pub proof fn lemma_gather_has<A>(
    leaves: Seq<QExpr>,
    part: spec_fn(QExpr) -> Seq<A>,
    i: int,
    x: A,
)
    requires
        0 <= i < leaves.len(),
        part(leaves[i]).contains(x),
    ensures
        gather(leaves, part).contains(x),
    decreases leaves.len(),
{
    let init = leaves.drop_last();
    let before = gather(init, part);
    let all = gather(leaves, part);
    if i < init.len() {
        lemma_gather_has(init, part, i, x);
        let k = choose|k: int| 0 <= k < before.len() && before[k] == x;
        assert(all[k] == x);
    } else {
        let last = part(leaves.last());
        let k = choose|k: int| 0 <= k < last.len() && last[k] == x;
        assert(all[before.len() + k] == x);
    }
}

/// Everything that is gathered comes from a leaf.
pub proof fn lemma_gather_from<A>(
    leaves: Seq<QExpr>,
    part: spec_fn(QExpr) -> Seq<A>,
    x: A,
) -> (i: int)
    requires
        gather(leaves, part).contains(x),
    ensures
        0 <= i < leaves.len(),
        part(leaves[i]).contains(x),
    decreases leaves.len(),
{
    let init = leaves.drop_last();
    let before = gather(init, part);
    let last = part(leaves.last());
    let k = choose|k: int| 0 <= k < gather(leaves, part).len() && gather(leaves, part)[k] == x;
    if k < before.len() {
        assert(before[k] == x);
        lemma_gather_from(init, part, x)
    } else {
        assert(last[k - before.len()] == x);
        leaves.len() - 1
    }
}

} // verus!
