//! What compiles to what, said of the characters of the terms and the fields of the plan.
//!
//! A character is visible if it is not white space.

use vstd::prelude::*;

use crate::characters::law_two_kept;
use crate::error::Error;
use crate::expr::{blank, white_space, Near, Phrase, QExpr, Term};
use crate::laws::{
    law_blank_in_near_is_ignored, law_blank_in_phrase_is_ignored, law_near_keeps_its_order,
    law_phrase_keeps_its_order, law_plans_are_well_formed, law_term_compiles, lemma_single_plan,
};
use crate::plan::{all_within, NearModel, PlanModel};
use crate::planning::{
    distinct, gather, kept, leaf_nears, leaf_phrases, leaf_terms, leaves_of,
    lemma_first_error_concat, lemma_gather_concat, lemma_leaves_concat, plan_of,
};
use crate::texts::{lemma_distinct_concat, lemma_distinct_contains};

verus! {

/// A term with a visible character compiles to a bag that holds its text and nothing else.
pub proof fn law_visible_term_compiles_to_itself(t: Term, k: int)
    requires
        0 <= k < t.0@.len(),
        !white_space(t.0@[k]),
    ensures
        plan_of(QExpr::Term(t)) == Ok::<PlanModel, Error>(
            PlanModel {
                bag_terms: seq![t.0@],
                phrases: Seq::empty(),
                nears: Seq::empty(),
            },
        ),
{
    law_term_compiles(t);
}

/// A term of white space alone compiles to nothing, whatever its length.
pub proof fn law_white_term_compiles_to_nothing(t: Term)
    requires
        forall|i: int| 0 <= i < t.0@.len() ==> white_space(#[trigger] t.0@[i]),
    ensures
        plan_of(QExpr::Term(t)) == Ok::<PlanModel, Error>(
            PlanModel {
                bag_terms: Seq::empty(),
                phrases: Seq::empty(),
                nears: Seq::empty(),
            },
        ),
{
    law_term_compiles(t);
}

/// A phrase of two or more terms, each with a visible character, compiles to exactly that phrase,
/// and its bag to the distinct texts of it.
pub proof fn law_visible_phrase_compiles_to_itself(p: Phrase)
    requires
        p.terms@.len() >= 2,
        forall|i: int|
            0 <= i < p.terms@.len() ==> exists|k: int|
                0 <= k < (#[trigger] p.terms@[i]).0@.len() && !white_space(
                    #[trigger] p.terms@[i].0@[k],
                ),
    ensures
        plan_of(QExpr::Phrase(p)) matches Ok(plan) && {
            &&& plan.phrases == seq![Seq::new(p.terms@.len(), |i: int| p.terms@[i].0@)]
            &&& plan.nears.len() == 0
            &&& plan.bag_terms == distinct(Seq::new(p.terms@.len(), |i: int| p.terms@[i].0@))
        },
{
    let texts = Seq::new(p.terms@.len(), |i: int| p.terms@[i].0@);
    assert(p.terms.deep_view() =~= texts);
    assert forall|i: int| 0 <= i < texts.len() implies !blank(#[trigger] texts[i]) by {
        let k = choose|k: int|
            0 <= k < p.terms@[i].0@.len() && !white_space(#[trigger] p.terms@[i].0@[k]);
        assert(!white_space(texts[i][k]));
    }
    law_phrase_keeps_its_order(p);
}

/// A proximity constraint with a positive window over two or more terms, each with a visible
/// character, compiles to exactly that constraint, and its bag to the distinct texts of it.
pub proof fn law_visible_near_compiles_to_itself(n: Near)
    requires
        n.terms@.len() >= 2,
        n.window > 0,
        forall|i: int|
            0 <= i < n.terms@.len() ==> exists|k: int|
                0 <= k < (#[trigger] n.terms@[i]).0@.len() && !white_space(
                    #[trigger] n.terms@[i].0@[k],
                ),
    ensures
        plan_of(QExpr::Near(n)) matches Ok(plan) && {
            &&& plan.phrases.len() == 0
            &&& plan.nears == seq![
                NearModel {
                    terms: Seq::new(n.terms@.len(), |i: int| n.terms@[i].0@),
                    window: n.window as nat,
                    ordered: n.ordered,
                },
            ]
            &&& plan.bag_terms == distinct(Seq::new(n.terms@.len(), |i: int| n.terms@[i].0@))
        },
{
    let texts = Seq::new(n.terms@.len(), |i: int| n.terms@[i].0@);
    assert(n.terms.deep_view() =~= texts);
    assert forall|i: int| 0 <= i < texts.len() implies !blank(#[trigger] texts[i]) by {
        let k = choose|k: int|
            0 <= k < n.terms@[i].0@.len() && !white_space(#[trigger] n.terms@[i].0@[k]);
        assert(!white_space(texts[i][k]));
    }
    law_near_keeps_its_order(n);
}

/// A term of white space alone is dropped from a phrase, whatever its length and its place: the
/// phrase compiles as it does without that term.
pub proof fn law_white_term_is_dropped_from_phrase(
    p: Phrase,
    q: Phrase,
    a: Seq<Term>,
    t: Term,
    b: Seq<Term>,
)
    requires
        forall|i: int| 0 <= i < t.0@.len() ==> white_space(#[trigger] t.0@[i]),
        p.terms@ == a + seq![t] + b,
        q.terms@ == a + b,
    ensures
        plan_of(QExpr::Phrase(p)) == plan_of(QExpr::Phrase(q)),
{
    let ta = Seq::new(a.len(), |i: int| a[i].0@);
    let tb = Seq::new(b.len(), |i: int| b[i].0@);
    assert(p.terms.deep_view() =~= ta + seq![t.0@] + tb);
    assert(q.terms.deep_view() =~= ta + tb);
    law_blank_in_phrase_is_ignored(p, q, ta, t.0@, tb);
}

/// A term of white space alone is dropped from a proximity constraint, whatever its length and
/// its place: the constraint compiles as it does without that term.
pub proof fn law_white_term_is_dropped_from_near(
    n: Near,
    m: Near,
    a: Seq<Term>,
    t: Term,
    b: Seq<Term>,
)
    requires
        forall|i: int| 0 <= i < t.0@.len() ==> white_space(#[trigger] t.0@[i]),
        n.terms@ == a + seq![t] + b,
        m.terms@ == a + b,
        n.window == m.window,
        n.ordered == m.ordered,
    ensures
        plan_of(QExpr::Near(n)) == plan_of(QExpr::Near(m)),
{
    let ta = Seq::new(a.len(), |i: int| a[i].0@);
    let tb = Seq::new(b.len(), |i: int| b[i].0@);
    assert(n.terms.deep_view() =~= ta + seq![t.0@] + tb);
    assert(m.terms.deep_view() =~= ta + tb);
    law_blank_in_near_is_ignored(n, m, ta, t.0@, tb);
}

/// Two of the terms, at different places, have a visible character exactly if two texts are kept.
proof fn lemma_two_visible(terms: Vec<Term>)
    ensures
        kept(terms.deep_view()).len() >= 2 <==> exists|i: int, j: int, k: int, l: int|
            0 <= i < j < terms@.len() && 0 <= k < terms@[i].0@.len() && 0 <= l
                < terms@[j].0@.len() && !white_space(#[trigger] terms@[i].0@[k]) && !white_space(
                #[trigger] terms@[j].0@[l],
            ),
{
    let texts = terms.deep_view();
    law_two_kept(texts);
    if kept(texts).len() >= 2 {
        let (i, j) = choose|i: int, j: int|
            0 <= i < j < texts.len() && !blank(#[trigger] texts[i]) && !blank(#[trigger] texts[j]);
        let k = choose|k: int| 0 <= k < texts[i].len() && !white_space(#[trigger] texts[i][k]);
        let l = choose|l: int| 0 <= l < texts[j].len() && !white_space(#[trigger] texts[j][l]);
        assert(!white_space(terms@[i].0@[k]) && !white_space(terms@[j].0@[l]));
    }
    if exists|i: int, j: int, k: int, l: int|
        0 <= i < j < terms@.len() && 0 <= k < terms@[i].0@.len() && 0 <= l < terms@[j].0@.len()
            && !white_space(#[trigger] terms@[i].0@[k]) && !white_space(
            #[trigger] terms@[j].0@[l],
        ) {
        let (i, j, k, l) = choose|i: int, j: int, k: int, l: int|
            0 <= i < j < terms@.len() && 0 <= k < terms@[i].0@.len() && 0 <= l < terms@[j].0@.len()
                && !white_space(#[trigger] terms@[i].0@[k]) && !white_space(
                #[trigger] terms@[j].0@[l],
            );
        assert(!white_space(texts[i][k]) && !white_space(texts[j][l]));
        assert(!blank(texts[i]) && !blank(texts[j]));
    }
}

/// A phrase compiles if two of its terms have a visible character, and is degenerate otherwise.
pub proof fn law_phrase_needs_two_visible_terms(p: Phrase)
    ensures
        plan_of(QExpr::Phrase(p)) is Ok <==> exists|i: int, j: int, k: int, l: int|
            0 <= i < j < p.terms@.len() && 0 <= k < p.terms@[i].0@.len() && 0 <= l
                < p.terms@[j].0@.len() && !white_space(#[trigger] p.terms@[i].0@[k])
                && !white_space(#[trigger] p.terms@[j].0@[l]),
        plan_of(QExpr::Phrase(p)) matches Err(e) ==> e == Error::DegenerateConstraint,
{
    lemma_two_visible(p.terms);
    lemma_single_plan(QExpr::Phrase(p));
}

/// A proximity constraint compiles if two of its terms have a visible character and its window is
/// positive. With such terms and an empty window it is rejected for the window, and without such
/// terms it is degenerate.
pub proof fn law_near_needs_two_visible_terms(n: Near)
    ensures
        (exists|i: int, j: int, k: int, l: int|
            0 <= i < j < n.terms@.len() && 0 <= k < n.terms@[i].0@.len() && 0 <= l
                < n.terms@[j].0@.len() && !white_space(#[trigger] n.terms@[i].0@[k])
                && !white_space(#[trigger] n.terms@[j].0@[l])) ==> if n.window > 0 {
            plan_of(QExpr::Near(n)) is Ok
        } else {
            plan_of(QExpr::Near(n)) == Err::<PlanModel, Error>(Error::EmptyWindow)
        },
        !(exists|i: int, j: int, k: int, l: int|
            0 <= i < j < n.terms@.len() && 0 <= k < n.terms@[i].0@.len() && 0 <= l
                < n.terms@[j].0@.len() && !white_space(#[trigger] n.terms@[i].0@[k])
                && !white_space(#[trigger] n.terms@[j].0@[l])) ==> plan_of(QExpr::Near(n))
            == Err::<PlanModel, Error>(Error::DegenerateConstraint),
{
    lemma_two_visible(n.terms);
    lemma_single_plan(QExpr::Near(n));
}

/// Every text of a compiled plan, be it in the bag, in a phrase or in a proximity constraint, has
/// a visible character; no text stands in the bag twice; every constraint relates at least two
/// texts, all of them in the bag; and every window is positive.
pub proof fn law_compiled_texts_are_visible(expr: QExpr)
    ensures
        plan_of(expr) matches Ok(plan) ==> {
            &&& forall|i: int|
                0 <= i < plan.bag_terms.len() ==> (#[trigger] plan.bag_terms[i]).len() > 0
                    && exists|k: int|
                    0 <= k < plan.bag_terms[i].len() && !white_space(
                        #[trigger] plan.bag_terms[i][k],
                    )
            &&& forall|i: int, j: int|
                0 <= i < j < plan.bag_terms.len() ==> #[trigger] plan.bag_terms[i]
                    != #[trigger] plan.bag_terms[j]
            &&& forall|i: int|
                0 <= i < plan.phrases.len() ==> (#[trigger] plan.phrases[i]).len() >= 2
            &&& forall|i: int, j: int|
                0 <= i < plan.phrases.len() && 0 <= j < plan.phrases[i].len()
                    ==> plan.bag_terms.contains(#[trigger] plan.phrases[i][j])
            &&& forall|i: int|
                0 <= i < plan.nears.len() ==> (#[trigger] plan.nears[i]).terms.len() >= 2
                    && plan.nears[i].window > 0
            &&& forall|i: int, j: int|
                0 <= i < plan.nears.len() && 0 <= j < plan.nears[i].terms.len()
                    ==> plan.bag_terms.contains(#[trigger] plan.nears[i].terms[j])
        },
{
    law_plans_are_well_formed(expr);
    if let Ok(plan) = plan_of(expr) {
        assert forall|i: int| 0 <= i < plan.bag_terms.len() implies (
        #[trigger] plan.bag_terms[i]).len() > 0 && exists|k: int|
            0 <= k < plan.bag_terms[i].len() && !white_space(#[trigger] plan.bag_terms[i][k]) by {
            assert(!blank(plan.bag_terms[i]));
        }
        assert forall|i: int, j: int|
            0 <= i < plan.phrases.len() && 0 <= j
                < plan.phrases[i].len() implies plan.bag_terms.contains(
            #[trigger] plan.phrases[i][j],
        ) by {
            assert(all_within(plan.phrases[i], plan.bag_terms));
        }
        assert forall|i: int, j: int|
            0 <= i < plan.nears.len() && 0 <= j
                < plan.nears[i].terms.len() implies plan.bag_terms.contains(
            #[trigger] plan.nears[i].terms[j],
        ) by {
            assert(all_within(plan.nears[i].terms, plan.bag_terms));
        }
    }
}

/// One more operand, behind the others, adds what it compiles to: its phrases and proximity
/// constraints behind theirs, and of its bag the texts that were not there. The first error is
/// that of the others, or else that of the operand.
pub proof fn law_and_grows_by_an_operand(xs: Vec<QExpr>, ys: Vec<QExpr>, x: QExpr)
    requires
        xs@ == ys@.push(x),
    ensures
        plan_of(QExpr::And(xs)) == match (plan_of(QExpr::And(ys)), plan_of(x)) {
            (Ok(l), Ok(r)) => Ok::<PlanModel, Error>(
                PlanModel {
                    bag_terms: distinct(l.bag_terms + r.bag_terms),
                    phrases: l.phrases + r.phrases,
                    nears: l.nears + r.nears,
                },
            ),
            (Ok(_), Err(e)) => Err(e),
            (Err(e), _) => Err(e),
        },
{
    let l = leaves_of(ys@);
    let r = x.leaves();
    let terms_of = |y: QExpr| leaf_terms(y);
    assert(xs@.drop_last() =~= ys@);
    assert(xs@.last() == x);
    lemma_first_error_concat(l, r);
    lemma_gather_concat(l, r, terms_of);
    lemma_gather_concat(l, r, |y: QExpr| leaf_phrases(y));
    lemma_gather_concat(l, r, |y: QExpr| leaf_nears(y));
    lemma_distinct_concat(gather(l, terms_of), gather(r, terms_of));
}

/// Nothing that an operand compiles to is lost: each operand of an AND that compiles does so
/// itself, its texts stand in the bag of the AND, and its constraints among those of the AND.
pub proof fn law_operands_are_kept(xs: Vec<QExpr>, i: int)
    requires
        0 <= i < xs@.len(),
        plan_of(QExpr::And(xs)) is Ok,
    ensures
        plan_of(xs@[i]) matches Ok(part) && (plan_of(QExpr::And(xs)) matches Ok(whole) && {
            &&& forall|j: int|
                0 <= j < part.bag_terms.len() ==> whole.bag_terms.contains(
                    #[trigger] part.bag_terms[j],
                )
            &&& forall|j: int|
                0 <= j < part.phrases.len() ==> whole.phrases.contains(#[trigger] part.phrases[j])
            &&& forall|j: int|
                0 <= j < part.nears.len() ==> whole.nears.contains(#[trigger] part.nears[j])
        }),
{
    let a = leaves_of(xs@.take(i));
    let x = xs@[i].leaves();
    let b = leaves_of(xs@.skip(i + 1));
    let terms_of = |y: QExpr| leaf_terms(y);
    let phrases_of = |y: QExpr| leaf_phrases(y);
    let nears_of = |y: QExpr| leaf_nears(y);
    assert(xs@.take(i + 1).drop_last() =~= xs@.take(i));
    assert(xs@ =~= xs@.take(i + 1) + xs@.skip(i + 1));
    lemma_leaves_concat(xs@.take(i + 1), xs@.skip(i + 1));
    assert(leaves_of(xs@) == (a + x) + b);
    lemma_first_error_concat(a + x, b);
    lemma_first_error_concat(a, x);
    lemma_gather_middle(a, x, b, terms_of);
    lemma_gather_middle(a, x, b, phrases_of);
    lemma_gather_middle(a, x, b, nears_of);
    let part = plan_of(xs@[i])->Ok_0;
    let whole = plan_of(QExpr::And(xs))->Ok_0;
    assert forall|j: int| 0 <= j < part.bag_terms.len() implies whole.bag_terms.contains(
        #[trigger] part.bag_terms[j],
    ) by {
        let s = part.bag_terms[j];
        lemma_distinct_contains(gather(x, terms_of), s);
        let m = choose|m: int| 0 <= m < gather(x, terms_of).len() && gather(x, terms_of)[m] == s;
        assert(gather(leaves_of(xs@), terms_of).contains(gather(x, terms_of)[m]));
        lemma_distinct_contains(gather(leaves_of(xs@), terms_of), s);
    }
}

/// What the leaves in the middle contribute is gathered.
proof fn lemma_gather_middle<A>(
    a: Seq<QExpr>,
    x: Seq<QExpr>,
    b: Seq<QExpr>,
    part: spec_fn(QExpr) -> Seq<A>,
)
    ensures
        forall|j: int|
            0 <= j < gather(x, part).len() ==> gather((a + x) + b, part).contains(
                #[trigger] gather(x, part)[j],
            ),
{
    lemma_gather_concat(a + x, b, part);
    lemma_gather_concat(a, x, part);
    let all = gather((a + x) + b, part);
    assert forall|j: int| 0 <= j < gather(x, part).len() implies all.contains(
        #[trigger] gather(x, part)[j],
    ) by {
        assert(all[gather(a, part).len() + j] == gather(x, part)[j]);
    }
}

} // verus!
