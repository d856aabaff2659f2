//! Facts about keeping the first occurrence of each text.

use vstd::prelude::*;

use crate::planning::distinct;

verus! {

/// Nothing is lost and nothing is added.
pub proof fn lemma_distinct_contains(texts: Seq<Seq<char>>, s: Seq<char>)
    ensures
        distinct(texts).contains(s) <==> texts.contains(s),
    decreases texts.len(),
{
    if texts.len() > 0 {
        let init = texts.drop_last();
        let last = texts.last();
        lemma_distinct_contains(init, s);
        assert(texts =~= init.push(last));
        lemma_push_contains(init, last, s);
        lemma_push_contains(distinct(init), last, s);
    }
}

/// What a sequence holds after one more text.
proof fn lemma_push_contains(texts: Seq<Seq<char>>, last: Seq<char>, s: Seq<char>)
    ensures
        texts.push(last).contains(s) <==> texts.contains(s) || s == last,
{
    let pushed = texts.push(last);
    assert(pushed[texts.len() as int] == last);
    if texts.contains(s) {
        let i = choose|i: int| 0 <= i < texts.len() && texts[i] == s;
        assert(pushed[i] == s);
    }
    if pushed.contains(s) && s != last {
        let i = choose|i: int| 0 <= i < pushed.len() && pushed[i] == s;
        assert(texts[i] == s);
    }
}

/// No text is kept twice.
pub proof fn lemma_distinct_no_duplicates(texts: Seq<Seq<char>>)
    ensures
        distinct(texts).no_duplicates(),
    decreases texts.len(),
{
    if texts.len() > 0 {
        let init = texts.drop_last();
        lemma_distinct_no_duplicates(init);
        lemma_distinct_contains(init, texts.last());
    }
}

/// Texts without duplicates are kept as they are.
pub proof fn lemma_distinct_identity(texts: Seq<Seq<char>>)
    requires
        texts.no_duplicates(),
    ensures
        distinct(texts) == texts,
    decreases texts.len(),
{
    if texts.len() > 0 {
        let init = texts.drop_last();
        lemma_distinct_identity(init);
        assert(texts =~= init.push(texts.last()));
        if init.contains(texts.last()) {
            let i = choose|i: int| 0 <= i < init.len() && init[i] == texts.last();
            assert(texts[i] == texts[texts.len() - 1]);
        }
    }
}

/// Keeping first occurrences of each part beforehand changes nothing.
pub proof fn lemma_distinct_concat(a: Seq<Seq<char>>, b: Seq<Seq<char>>)
    ensures
        distinct(a + b) == distinct(distinct(a) + distinct(b)),
    decreases b.len(),
{
    if b.len() == 0 {
        assert(a + b =~= a);
        assert(distinct(a) + distinct(b) =~= distinct(a));
        lemma_distinct_no_duplicates(a);
        lemma_distinct_identity(distinct(a));
    } else {
        let init = b.drop_last();
        let last = b.last();
        lemma_distinct_concat(a, init);
        assert((a + b).drop_last() =~= a + init);
        lemma_concat_contains(a, init, last);
        lemma_concat_contains(distinct(a), distinct(init), last);
        lemma_distinct_contains(a, last);
        lemma_distinct_contains(init, last);
        if !init.contains(last) {
            let whole = distinct(a) + distinct(b);
            assert(whole.drop_last() =~= distinct(a) + distinct(init));
            assert(whole.last() == last);
        }
    }
}

/// What two sequences hold together.
proof fn lemma_concat_contains(a: Seq<Seq<char>>, b: Seq<Seq<char>>, s: Seq<char>)
    ensures
        (a + b).contains(s) <==> a.contains(s) || b.contains(s),
{
    if a.contains(s) {
        let i = choose|i: int| 0 <= i < a.len() && a[i] == s;
        assert((a + b)[i] == s);
    }
    if b.contains(s) {
        let i = choose|i: int| 0 <= i < b.len() && b[i] == s;
        assert((a + b)[a.len() + i] == s);
    }
    if (a + b).contains(s) && !a.contains(s) {
        let i = choose|i: int| 0 <= i < (a + b).len() && (a + b)[i] == s;
        if i < a.len() {
            assert(a[i] == s);
        }
        assert(b[i - a.len()] == s);
    }
}

/// The text at `p` does not occur before `p`.
pub open spec fn occurs_first(texts: Seq<Seq<char>>, p: int) -> bool {
    0 <= p < texts.len() && !texts.take(p).contains(texts[p])
}

/// The text `x` stands somewhere before the text `y`.
pub open spec fn stands_before(texts: Seq<Seq<char>>, x: Seq<char>, y: Seq<char>) -> bool {
    exists|i: int, j: int|
        0 <= i < j < texts.len() && #[trigger] texts[i] == x && #[trigger] texts[j] == y
}

/// First occurrences keep their order.
pub proof fn lemma_distinct_order(texts: Seq<Seq<char>>, p: int, q: int)
    requires
        occurs_first(texts, p),
        occurs_first(texts, q),
        p < q,
    ensures
        stands_before(distinct(texts), texts[p], texts[q]),
    decreases texts.len(),
{
    let init = texts.drop_last();
    let d = distinct(init);
    if q < init.len() {
        assert(init.take(p) =~= texts.take(p));
        assert(init.take(q) =~= texts.take(q));
        lemma_distinct_order(init, p, q);
        let (i, j) = choose|i: int, j: int|
            0 <= i < j < d.len() && #[trigger] d[i] == texts[p] && #[trigger] d[j] == texts[q];
        assert(distinct(texts)[i] == texts[p] && distinct(texts)[j] == texts[q]);
    } else {
        assert(texts.take(q) =~= init);
        assert(init[p] == texts[p]);
        lemma_distinct_contains(init, texts[p]);
        let i = choose|i: int| 0 <= i < d.len() && d[i] == texts[p];
        assert(distinct(texts)[i] == texts[p]);
        assert(distinct(texts)[d.len() as int] == texts[q]);
    }
}

} // verus!
