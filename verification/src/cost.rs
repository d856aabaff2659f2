//! What a node of a query costs.

use vstd::prelude::*;

verus! {

/// The operators of the query algebra.
#[derive(Debug, PartialEq, Eq, Structural)]
pub enum Operator {
    /// Conjunction.
    And,
    /// Disjunction.
    Or,
    /// Negation.
    Not,
    /// A leaf term.
    Symbol,
}

impl Operator {
    /// What the operator itself costs. Disjunction is penalised, since conjunctive plans are
    /// cheaper to run.
    pub open spec fn weight(self) -> nat {
        match self {
            Operator::And => 1,
            Operator::Or => 3,
            Operator::Not => 2,
            Operator::Symbol => 1,
        }
    }
}

/// The sum of the costs.
pub open spec fn total(costs: Seq<usize>) -> nat
    decreases costs.len(),
{
    if costs.len() == 0 {
        0
    } else {
        total(costs.drop_last()) + costs.last() as nat
    }
}

/// What a node costs whose children cost `children`.
pub open spec fn cost(op: Operator, children: Seq<usize>) -> nat {
    op.weight() + total(children)
}

/// The sum of the first costs is no greater than the sum of all.
proof fn lemma_total_take(costs: Seq<usize>, n: int)
    requires
        0 <= n <= costs.len(),
    ensures
        total(costs.take(n)) <= total(costs),
    decreases costs.len() - n,
{
    if n < costs.len() {
        lemma_total_take(costs, n + 1);
        assert(costs.take(n + 1).drop_last() =~= costs.take(n));
    } else {
        assert(costs.take(n) =~= costs);
    }
}

/// Returns what a node costs whose children cost `children`, unless that exceeds a `usize`.
pub fn node_cost(op: Operator, children: &Vec<usize>) -> (r: Option<usize>)
    ensures
        match r {
            Some(c) => c == cost(op, children@),
            None => cost(op, children@) > usize::MAX,
        },
{
    let mut sum: usize = match op {
        Operator::And => 1,
        Operator::Or => 3,
        Operator::Not => 2,
        Operator::Symbol => 1,
    };
    for i in 0..children.len()
        invariant
            sum == cost(op, children@.take(i as int)),
    {
        assert(children@.take(i + 1).drop_last() =~= children@.take(i as int));
        match sum.checked_add(children[i]) {
            Some(s) => {
                sum = s;
            },
            None => {
                proof {
                    lemma_total_take(children@, i + 1);
                }
                return None;
            },
        }
    }
    assert(children@.take(children.len() as int) =~= children@);
    Some(sum)
}

/// A node costs more than each of its children, so that dropping a node makes a query cheaper.
pub proof fn law_fewer_nodes_are_cheaper(op: Operator, children: Seq<usize>, i: int)
    requires
        0 <= i < children.len(),
    ensures
        cost(op, children) > children[i],
{
    lemma_total_take(children, i + 1);
    assert(children.take(i + 1).last() == children[i]);
}

/// A disjunction costs more than a conjunction of the same operands.
pub proof fn law_disjunction_is_penalised(children: Seq<usize>)
    ensures
        cost(Operator::Or, children) > cost(Operator::And, children),
{
}

/// The sum of two lists of costs is the sum of their sums.
proof fn lemma_total_concat(a: Seq<usize>, b: Seq<usize>)
    ensures
        total(a + b) == total(a) + total(b),
    decreases b.len(),
{
    if b.len() == 0 {
        assert(a + b =~= a);
    } else {
        assert((a + b).drop_last() =~= a + b.drop_last());
        lemma_total_concat(a, b.drop_last());
    }
}

/// The sum of one cost is that cost.
proof fn lemma_total_one(c: usize)
    ensures
        total(seq![c]) == c,
{
    assert(seq![c].drop_last().len() == 0);
    assert(total(seq![c].drop_last()) == 0);
}

/// A node without children costs what its operator costs: one for a conjunction or a leaf, two
/// for a negation, three for a disjunction.
pub proof fn law_childless_costs()
    ensures
        cost(Operator::And, Seq::empty()) == 1,
        cost(Operator::Or, Seq::empty()) == 3,
        cost(Operator::Not, Seq::empty()) == 2,
        cost(Operator::Symbol, Seq::empty()) == 1,
{
}

/// Each further child adds its cost in full, wherever it stands among the others.
pub proof fn law_each_child_counts_in_full(op: Operator, a: Seq<usize>, c: usize, b: Seq<usize>)
    ensures
        cost(op, a + seq![c] + b) == cost(op, a + b) + c,
{
    lemma_total_concat(a + seq![c], b);
    lemma_total_concat(a, seq![c]);
    lemma_total_concat(a, b);
    lemma_total_one(c);
}

/// The cost is additive in the children: two groups of them cost together what they cost apart,
/// with the operator counted once.
pub proof fn law_cost_is_additive(op: Operator, a: Seq<usize>, b: Seq<usize>)
    ensures
        cost(op, a + b) + cost(op, Seq::empty()) == cost(op, a) + cost(op, b),
{
    lemma_total_concat(a, b);
}

/// A child that gets dearer by `d` makes its node dearer by exactly `d`.
pub proof fn law_raising_a_child_raises_the_cost(
    op: Operator,
    children: Seq<usize>,
    i: int,
    c: usize,
)
    requires
        0 <= i < children.len(),
    ensures
        cost(op, children.update(i, c)) - cost(op, children) == c - children[i],
{
    let a = children.take(i);
    let b = children.skip(i + 1);
    assert(children =~= a + seq![children[i]] + b);
    assert(children.update(i, c) =~= a + seq![c] + b);
    law_each_child_counts_in_full(op, a, children[i], b);
    law_each_child_counts_in_full(op, a, c, b);
}

} // verus!
