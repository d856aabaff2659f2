//! Compiled plans.

use vstd::prelude::*;

use crate::expr::blank;

verus! {

/// A compiled conjunctive query plan.
///
/// - `bag_terms` is a **superset** used for candidate generation.
/// - `phrases` and `nears` are **verifier constraints** (positional evaluation).
#[derive(Debug, PartialEq, Eq)]
pub struct ConjunctivePlan {
    /// Bag-of-terms used for candidate generation.
    pub bag_terms: Vec<String>,
    /// Phrase constraints (ordered adjacent).
    pub phrases: Vec<Vec<String>>,
    /// Proximity constraints.
    pub nears: Vec<NearPlan>,
}

/// A compiled proximity constraint.
#[derive(Debug, PartialEq, Eq)]
pub struct NearPlan {
    /// Terms participating in the proximity constraint.
    pub terms: Vec<String>,
    /// Window size in tokens.
    pub window: u32,
    /// If true, enforce term order.
    pub ordered: bool,
}

/// What a [`NearPlan`] stands for.
#[verifier::ext_equal]
pub struct NearModel {
    /// The texts of the terms, in order.
    pub terms: Seq<Seq<char>>,
    /// Window size in tokens.
    pub window: nat,
    /// Whether the order of the terms counts.
    pub ordered: bool,
}

/// What a [`ConjunctivePlan`] stands for.
#[verifier::ext_equal]
pub struct PlanModel {
    /// The texts of the bag, in order.
    pub bag_terms: Seq<Seq<char>>,
    /// The texts of each phrase, in order.
    pub phrases: Seq<Seq<Seq<char>>>,
    /// The proximity constraints, in order.
    pub nears: Seq<NearModel>,
}

impl DeepView for NearPlan {
    type V = NearModel;

    open spec fn deep_view(&self) -> NearModel {
        NearModel {
            terms: self.terms.deep_view(),
            window: self.window as nat,
            ordered: self.ordered,
        }
    }
}

impl DeepView for ConjunctivePlan {
    type V = PlanModel;

    open spec fn deep_view(&self) -> PlanModel {
        PlanModel {
            bag_terms: self.bag_terms.deep_view(),
            phrases: self.phrases.deep_view(),
            nears: self.nears.deep_view(),
        }
    }
}

/// No text of `terms` is blank.
pub open spec fn none_blank(terms: Seq<Seq<char>>) -> bool {
    forall|i: int| 0 <= i < terms.len() ==> !blank(#[trigger] terms[i])
}

/// Every text of `terms` stands in `bag`.
pub open spec fn all_within(terms: Seq<Seq<char>>, bag: Seq<Seq<char>>) -> bool {
    forall|i: int| 0 <= i < terms.len() ==> bag.contains(#[trigger] terms[i])
}

impl PlanModel {
    /// What every compiled plan keeps: the bag holds no text twice and no blank one, each
    /// positional constraint relates at least two terms, all of them in the bag, and each
    /// proximity window is positive.
    pub open spec fn well_formed(self) -> bool {
        &&& self.bag_terms.no_duplicates()
        &&& none_blank(self.bag_terms)
        &&& forall|i: int|
            0 <= i < self.phrases.len() ==> (#[trigger] self.phrases[i]).len() >= 2 && all_within(
                self.phrases[i],
                self.bag_terms,
            )
        &&& forall|i: int|
            0 <= i < self.nears.len() ==> (#[trigger] self.nears[i]).terms.len() >= 2
                && self.nears[i].window > 0 && all_within(self.nears[i].terms, self.bag_terms)
    }

    /// The plan has no positional constraints.
    pub open spec fn bag_only(self) -> bool {
        self.phrases.len() == 0 && self.nears.len() == 0
    }
}

impl ConjunctivePlan {
    /// Return true if there are no positional constraints.
    pub fn is_bag_only(&self) -> (b: bool)
        ensures
            b == self.deep_view().bag_only(),
            b <==> self.phrases@.len() == 0 && self.nears@.len() == 0,
    {
        self.phrases.is_empty() && self.nears.is_empty()
    }
}

/// A plan has no positional constraints exactly if it holds no phrase and no proximity
/// constraint, whatever is in its bag and whether or not it was compiled.
pub proof fn law_bag_only_is_about_constraints(plan: ConjunctivePlan)
    ensures
        plan.deep_view().bag_only() <==> plan.phrases@.len() == 0 && plan.nears@.len() == 0,
{
}

/// Two plans with as many phrases and as many proximity constraints are both bag-only or
/// neither is: their bags do not matter.
pub proof fn law_bag_only_ignores_the_bag(p: ConjunctivePlan, q: ConjunctivePlan)
    requires
        p.phrases@.len() == q.phrases@.len(),
        p.nears@.len() == q.nears@.len(),
    ensures
        p.deep_view().bag_only() == q.deep_view().bag_only(),
{
}

/// A model with a constraint is not bag-only, one without is.
pub proof fn law_bag_only_model(model: PlanModel)
    ensures
        model.phrases.len() > 0 ==> !model.bag_only(),
        model.nears.len() > 0 ==> !model.bag_only(),
        model.phrases.len() + model.nears.len() == 0 ==> model.bag_only(),
{
}

/// A plan stands for its texts, windows and orders, place by place.
pub proof fn law_plan_stands_for_its_fields(plan: ConjunctivePlan)
    ensures
        plan.deep_view().bag_terms.len() == plan.bag_terms@.len(),
        plan.deep_view().phrases.len() == plan.phrases@.len(),
        plan.deep_view().nears.len() == plan.nears@.len(),
        forall|i: int|
            0 <= i < plan.bag_terms@.len() ==> #[trigger] plan.deep_view().bag_terms[i]
                == plan.bag_terms@[i]@,
        forall|i: int|
            0 <= i < plan.phrases@.len() ==> (#[trigger] plan.deep_view().phrases[i]).len()
                == plan.phrases@[i]@.len(),
        forall|i: int, j: int|
            0 <= i < plan.phrases@.len() && 0 <= j < plan.phrases@[i]@.len() ==> (
            #[trigger] plan.deep_view().phrases[i][j]) == plan.phrases@[i]@[j]@,
        forall|i: int|
            0 <= i < plan.nears@.len() ==> {
                &&& (#[trigger] plan.deep_view().nears[i]).window == plan.nears@[i].window
                &&& plan.deep_view().nears[i].ordered == plan.nears@[i].ordered
                &&& plan.deep_view().nears[i].terms.len() == plan.nears@[i].terms@.len()
            },
        forall|i: int, j: int|
            0 <= i < plan.nears@.len() && 0 <= j < plan.nears@[i].terms@.len() ==> (
            #[trigger] plan.deep_view().nears[i].terms[j]) == plan.nears@[i].terms@[j]@,
{
}

impl Clone for NearPlan {
    fn clone(&self) -> (copy: NearPlan)
        ensures
            copy.deep_view() == self.deep_view(),
            copy.terms.deep_view() == self.terms.deep_view(),
            copy.window == self.window,
            copy.ordered == self.ordered,
    {
        let copy = NearPlan {
            terms: self.terms.clone(),
            window: self.window,
            ordered: self.ordered,
        };
        assert(copy.terms.deep_view() =~= self.terms.deep_view());
        copy
    }
}

impl Clone for ConjunctivePlan {
    fn clone(&self) -> (copy: ConjunctivePlan)
        ensures
            copy.deep_view() == self.deep_view(),
            copy.bag_terms.deep_view() == self.bag_terms.deep_view(),
            copy.phrases.deep_view() == self.phrases.deep_view(),
            copy.nears@.len() == self.nears@.len(),
            forall|i: int|
                0 <= i < self.nears@.len() ==> {
                    &&& (#[trigger] copy.nears@[i]).terms.deep_view()
                        == self.nears@[i].terms.deep_view()
                    &&& copy.nears@[i].window == self.nears@[i].window
                    &&& copy.nears@[i].ordered == self.nears@[i].ordered
                },
    {
        let copy = ConjunctivePlan {
            bag_terms: self.bag_terms.clone(),
            phrases: self.phrases.clone(),
            nears: self.nears.clone(),
        };
        assert(copy.bag_terms.deep_view() =~= self.bag_terms.deep_view());
        assert(copy.phrases.deep_view() =~~= self.phrases.deep_view());
        assert(copy.nears.deep_view() =~= self.nears.deep_view());
        copy
    }
}

} // verus!
