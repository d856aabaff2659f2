//! The compiler.

use vstd::hash_set::StringHashSet;
use vstd::prelude::*;

use crate::error::Error;
use crate::expr::{blank, Near, Phrase, QExpr, Term};
use crate::laws::{at_fault, law_errors_have_a_leaf_at_fault, law_plans_are_well_formed};
use crate::plan::{ConjunctivePlan, NearPlan};
use crate::planning::{
    distinct, first_error, gather, kept, leaf_error, leaf_nears, leaf_phrases, leaf_terms,
    leaves_of, lemma_first_error_concat, lemma_gather_concat, lemma_leaves_concat,
    lemma_single_leaf, outcome, plan_of,
};

verus! {

/// Puts the text of a term into the bag, unless it is blank.
fn push_term(bag: &mut Vec<String>, t: &Term)
    ensures
        final(bag).deep_view() == old(bag).deep_view() + leaf_terms(QExpr::Term(*t)),
{
    let ghost before = bag.deep_view();
    reveal_with_fuel(Seq::filter, 2);
    if !t.is_blank() {
        bag.push(t.0.clone());
    }
    assert(bag.deep_view() =~= before + leaf_terms(QExpr::Term(*t)));
}

/// Puts the texts that are not blank into the bag, and returns them too.
fn push_kept(bag: &mut Vec<String>, terms: &Vec<Term>) -> (ts: Vec<String>)
    ensures
        ts.deep_view() == kept(terms.deep_view()),
        final(bag).deep_view() == old(bag).deep_view() + kept(terms.deep_view()),
{
    let ghost texts = terms.deep_view();
    let ghost keep = |t: Seq<char>| !blank(t);
    let mut ts: Vec<String> = Vec::new();
    assert(texts.take(0).filter(keep) =~= Seq::empty());
    assert(ts.deep_view() =~= Seq::empty());
    assert(bag.deep_view() =~= old(bag).deep_view() + ts.deep_view());
    for i in 0..terms.len()
        invariant
            texts == terms.deep_view(),
            keep == |t: Seq<char>| !blank(t),
            ts.deep_view() == texts.take(i as int).filter(keep),
            bag.deep_view() == old(bag).deep_view() + ts.deep_view(),
    {
        let ghost ts_before = ts.deep_view();
        let ghost bag_before = bag.deep_view();
        let t = &terms[i];
        proof {
            texts.take(i as int).lemma_filter_push(texts[i as int], keep);
            assert(texts.take(i + 1) =~= texts.take(i as int).push(texts[i as int]));
        }
        if !t.is_blank() {
            ts.push(t.0.clone());
            bag.push(t.0.clone());
            assert(ts.deep_view() =~= ts_before.push(texts[i as int]));
            assert(bag.deep_view() =~= bag_before.push(texts[i as int]));
        }
    }
    assert(texts.take(texts.len() as int) =~= texts);
    ts
}

/// Compiles a phrase: its terms go into the bag, and into the phrases where they suffice.
fn push_phrase(bag: &mut Vec<String>, phrases: &mut Vec<Vec<String>>, p: &Phrase) -> (r: Result<
    (),
    Error,
>)
    ensures
        final(bag).deep_view() == old(bag).deep_view() + leaf_terms(QExpr::Phrase(*p)),
        match leaf_error(QExpr::Phrase(*p)) {
            Some(e) => r == Err::<(), Error>(e) && *final(phrases) == *old(phrases),
            None => r == Ok::<(), Error>(()) && final(phrases).deep_view()
                == old(phrases).deep_view() + leaf_phrases(QExpr::Phrase(*p)),
        },
{
    let ghost before = phrases.deep_view();
    let ts = push_kept(bag, &p.terms);
    if ts.len() >= 2 {
        phrases.push(ts);
        assert(phrases.deep_view() =~= before + leaf_phrases(QExpr::Phrase(*p)));
    } else {
        return Err(Error::DegenerateConstraint);
    }
    Ok(())
}

/// Compiles a proximity constraint: its terms go into the bag, and the constraint into `nears`
/// where its terms suffice and its window is positive.
fn push_near(bag: &mut Vec<String>, nears: &mut Vec<NearPlan>, n: &Near) -> (r: Result<(), Error>)
    ensures
        final(bag).deep_view() == old(bag).deep_view() + leaf_terms(QExpr::Near(*n)),
        match leaf_error(QExpr::Near(*n)) {
            Some(e) => r == Err::<(), Error>(e) && *final(nears) == *old(nears),
            None => r == Ok::<(), Error>(()) && final(nears).deep_view() == old(nears).deep_view()
                + leaf_nears(QExpr::Near(*n)),
        },
{
    let ghost before = nears.deep_view();
    let ts = push_kept(bag, &n.terms);
    if ts.len() < 2 {
        return Err(Error::DegenerateConstraint);
    }
    if n.window == 0 {
        return Err(Error::EmptyWindow);
    }
    nears.push(NearPlan { terms: ts, window: n.window, ordered: n.ordered });
    assert(nears.deep_view() =~= before + leaf_nears(QExpr::Near(*n)));
    Ok(())
}

/// Compiles an expression leaf by leaf, up to the first leaf that has an error.
fn walk(
    e: &QExpr,
    bag: &mut Vec<String>,
    phrases: &mut Vec<Vec<String>>,
    nears: &mut Vec<NearPlan>,
) -> (r: Result<(), Error>)
    ensures
        match first_error(e.leaves()) {
            Some(err) => r == Err::<(), Error>(err),
            None => {
                &&& r == Ok::<(), Error>(())
                &&& final(bag).deep_view() == old(bag).deep_view() + gather(
                    e.leaves(),
                    |l: QExpr| leaf_terms(l),
                )
                &&& final(phrases).deep_view() == old(phrases).deep_view() + gather(
                    e.leaves(),
                    |l: QExpr| leaf_phrases(l),
                )
                &&& final(nears).deep_view() == old(nears).deep_view() + gather(
                    e.leaves(),
                    |l: QExpr| leaf_nears(l),
                )
            },
        },
    decreases e,
{
    let ghost terms_of = |l: QExpr| leaf_terms(l);
    let ghost phrases_of = |l: QExpr| leaf_phrases(l);
    let ghost nears_of = |l: QExpr| leaf_nears(l);
    proof {
        lemma_single_leaf(*e, terms_of);
        lemma_single_leaf(*e, phrases_of);
        lemma_single_leaf(*e, nears_of);
        assert(old(phrases).deep_view() + Seq::empty() =~= old(phrases).deep_view());
        assert(old(nears).deep_view() + Seq::empty() =~= old(nears).deep_view());
    }
    match e {
        QExpr::Term(t) => {
            push_term(bag, t);
            Ok(())
        },
        QExpr::Phrase(p) => push_phrase(bag, phrases, p),
        QExpr::Near(n) => push_near(bag, nears, n),
        QExpr::And(xs) => {
            for i in 0..xs.len()
                invariant
                    *e == QExpr::And(*xs),
                    first_error(leaves_of(xs@.take(i as int))) is None,
                    bag.deep_view() == old(bag).deep_view() + gather(
                        leaves_of(xs@.take(i as int)),
                        terms_of,
                    ),
                    phrases.deep_view() == old(phrases).deep_view() + gather(
                        leaves_of(xs@.take(i as int)),
                        phrases_of,
                    ),
                    nears.deep_view() == old(nears).deep_view() + gather(
                        leaves_of(xs@.take(i as int)),
                        nears_of,
                    ),
                    terms_of == |l: QExpr| leaf_terms(l),
                    phrases_of == |l: QExpr| leaf_phrases(l),
                    nears_of == |l: QExpr| leaf_nears(l),
            {
                let x = &xs[i];
                let r = walk(x, bag, phrases, nears);
                proof {
                    let done = leaves_of(xs@.take(i as int));
                    assert(xs@.take(i + 1).drop_last() =~= xs@.take(i as int));
                    assert(leaves_of(xs@.take(i + 1)) == done + x.leaves());
                    lemma_first_error_concat(done, x.leaves());
                    lemma_gather_concat(done, x.leaves(), terms_of);
                    lemma_gather_concat(done, x.leaves(), phrases_of);
                    lemma_gather_concat(done, x.leaves(), nears_of);
                }
                if r.is_err() {
                    proof {
                        let rest = leaves_of(xs@.skip(i + 1));
                        assert(xs@ =~= xs@.take(i + 1) + xs@.skip(i + 1));
                        lemma_leaves_concat(xs@.take(i + 1), xs@.skip(i + 1));
                        lemma_first_error_concat(leaves_of(xs@.take(i + 1)), rest);
                    }
                    return r;
                }
            }
            assert(xs@.take(xs.len() as int) =~= xs@);
            Ok(())
        },
        QExpr::Or(_) => Err(Error::UnsupportedOr),
        QExpr::Not(_) => Err(Error::UnsupportedNot),
        QExpr::Field(_, _) => Err(Error::UnsupportedField),
    }
}

/// Keeps the first occurrence of each text, in order.
fn dedup(bag: Vec<String>) -> (deduped: Vec<String>)
    ensures
        deduped.deep_view() == distinct(bag.deep_view()),
{
    let ghost texts = bag.deep_view();
    let mut seen = StringHashSet::new();
    let mut deduped: Vec<String> = Vec::with_capacity(bag.len());
    assert(deduped.deep_view() =~= distinct(texts.take(0)));
    for t in it: bag
        invariant
            it.seq() == bag@,
            texts == bag.deep_view(),
            forall|s: Seq<char>| #[trigger]
                seen@.contains(s) <==> texts.take(it.index() as int).contains(s),
            deduped.deep_view() == distinct(texts.take(it.index() as int)),
    {
        let ghost i = it.index() as int;
        let ghost done = texts.take(i);
        let ghost before = deduped.deep_view();
        proof {
            assert(t@ == texts[i]);
            assert(texts.take(i + 1).drop_last() =~= done);
            assert(texts.take(i + 1) =~= done.push(texts[i]));
            assert forall|s: Seq<char>| #[trigger]
                texts.take(i + 1).contains(s) <==> done.contains(s) || s == texts[i] by {
                if done.contains(s) {
                    let j = choose|j: int| 0 <= j < done.len() && done[j] == s;
                    assert(texts.take(i + 1)[j] == s);
                }
                assert(texts.take(i + 1)[i] == texts[i]);
            }
        }
        if seen.insert(t.clone()) {
            deduped.push(t);
            assert(deduped.deep_view() =~= before.push(texts[i]));
        }
    }
    assert(texts.take(texts.len() as int) =~= texts);
    deduped
}

/// Compile a query into a conjunctive plan.
///
/// Supported subset:
/// - `Term`, `Phrase`, `Near`
/// - `And` trees over supported nodes
///
/// Unsupported today (explicit errors): `Or`, `Not`, `Field`. A phrase or near constraint that
/// keeps fewer than 2 terms, and a near constraint with an empty window, are errors too.
pub fn compile_conjunctive(expr: &QExpr) -> (r: Result<ConjunctivePlan, Error>)
    ensures
        outcome(r) == plan_of(*expr),
        match plan_of(*expr) {
            Err(e) => r == Err::<ConjunctivePlan, Error>(e),
            Ok(model) => r matches Ok(plan) && {
                &&& plan.bag_terms.deep_view() == model.bag_terms
                &&& plan.phrases.deep_view() == model.phrases
                &&& plan.nears@.len() == model.nears.len()
                &&& forall|i: int|
                    0 <= i < plan.nears@.len() ==> {
                        &&& (#[trigger] plan.nears@[i]).terms.deep_view() == model.nears[i].terms
                        &&& plan.nears@[i].window == model.nears[i].window
                        &&& plan.nears@[i].ordered == model.nears[i].ordered
                    }
            },
        },
        r matches Ok(plan) ==> plan.deep_view().well_formed(),
        r matches Err(e) ==> exists|i: int|
            0 <= i < expr.leaves().len() && at_fault(#[trigger] expr.leaves()[i], e),
{
    let mut bag: Vec<String> = Vec::new();
    let mut phrases: Vec<Vec<String>> = Vec::new();
    let mut nears: Vec<NearPlan> = Vec::new();
    let walked = walk(expr, &mut bag, &mut phrases, &mut nears);
    if let Err(e) = walked {
        proof {
            law_errors_have_a_leaf_at_fault(*expr, e);
        }
        return Err(e);
    }
    assert(bag.deep_view() =~= gather(expr.leaves(), |l: QExpr| leaf_terms(l)));
    assert(phrases.deep_view() =~= gather(expr.leaves(), |l: QExpr| leaf_phrases(l)));
    assert(nears.deep_view() =~= gather(expr.leaves(), |l: QExpr| leaf_nears(l)));
    proof {
        law_plans_are_well_formed(*expr);
    }
    Ok(ConjunctivePlan { bag_terms: dedup(bag), phrases, nears })
}

} // verus!
