//! What is blank, what is kept and what is distinct, said of characters and of positions.

use vstd::prelude::*;

use crate::expr::{blank, white_space, Term};
use crate::planning::{distinct, kept};
use crate::texts::{lemma_distinct_contains, lemma_distinct_no_duplicates};

verus! {

/// White space is these code points: tab to carriage return, space, next line, no-break space,
/// the Ogham space mark, the spaces from en quad to hair space, the line and paragraph
/// separators, the narrow no-break space, the medium mathematical space and the ideographic
/// space.
pub proof fn law_white_space_by_code_point(c: char)
    ensures
        white_space(c) <==> {
            let u = c as int;
            ||| 0x9 <= u <= 0xD
            ||| u == 0x20 || u == 0x85 || u == 0xA0 || u == 0x1680
            ||| 0x2000 <= u <= 0x200A
            ||| u == 0x2028 || u == 0x2029 || u == 0x202F || u == 0x205F || u == 0x3000
        },
{
}

/// A text with a character that is not white space is not blank, whatever its length and
/// whatever its other characters.
pub proof fn law_visible_character_is_not_blank(s: Seq<char>, i: int)
    requires
        0 <= i < s.len(),
        !white_space(s[i]),
    ensures
        !blank(s),
{
}

/// A text of white space alone is blank, whatever its length; the empty text is.
pub proof fn law_white_space_is_blank(s: Seq<char>)
    requires
        forall|i: int| 0 <= i < s.len() ==> white_space(#[trigger] s[i]),
    ensures
        blank(s),
{
}

/// A text is blank exactly if both of its parts are, wherever it is cut.
pub proof fn law_blank_parts(a: Seq<char>, b: Seq<char>)
    ensures
        blank(a + b) <==> blank(a) && blank(b),
{
    if blank(a + b) {
        assert forall|i: int| 0 <= i < a.len() implies white_space(#[trigger] a[i]) by {
            assert((a + b)[i] == a[i]);
        }
        assert forall|i: int| 0 <= i < b.len() implies white_space(#[trigger] b[i]) by {
            assert((a + b)[a.len() + i] == b[i]);
        }
    }
}

/// A term stands for its text.
pub proof fn law_term_stands_for_its_text(t: Term)
    ensures
        t.deep_view() == t.0@,
{
}

/// Texts without a visible character go, all others stay in their places.
pub proof fn law_kept_by_parts(a: Seq<Seq<char>>, s: Seq<char>, b: Seq<Seq<char>>)
    ensures
        kept(Seq::<Seq<char>>::empty()) == Seq::<Seq<char>>::empty(),
        (exists|k: int| 0 <= k < s.len() && !white_space(#[trigger] s[k])) ==> kept(
            a + seq![s] + b,
        ) == kept(a) + seq![s] + kept(b),
        (forall|k: int| 0 <= k < s.len() ==> white_space(#[trigger] s[k])) ==> kept(
            a + seq![s] + b,
        ) == kept(a) + kept(b),
{
    let keep = |t: Seq<char>| !blank(t);
    reveal_with_fuel(Seq::filter, 2);
    Seq::filter_distributes_over_add(a + seq![s], b, keep);
    Seq::filter_distributes_over_add(a, seq![s], keep);
    assert(kept(Seq::<Seq<char>>::empty()) =~= Seq::empty());
    if exists|k: int| 0 <= k < s.len() && !white_space(#[trigger] s[k]) {
        assert(!blank(s));
        assert(seq![s].filter(keep) =~= seq![s]);
    } else {
        assert(blank(s));
        assert(seq![s].filter(keep) =~= Seq::empty());
        assert(a.filter(keep) + Seq::empty() =~= a.filter(keep));
    }
}

/// Two texts are kept exactly if two of them, at different places, are not blank.
pub proof fn law_two_kept(texts: Seq<Seq<char>>)
    ensures
        kept(texts).len() >= 2 <==> exists|i: int, j: int|
            0 <= i < j < texts.len() && !blank(#[trigger] texts[i]) && !blank(#[trigger] texts[j]),
    decreases texts.len(),
{
    reveal(Seq::filter);
    if texts.len() > 0 {
        let init = texts.drop_last();
        let n = init.len() as int;
        law_two_kept(init);
        lemma_one_kept(init);
        if kept(texts).len() >= 2 {
            if kept(init).len() >= 2 {
                let (i, j) = choose|i: int, j: int|
                    0 <= i < j < init.len() && !blank(#[trigger] init[i]) && !blank(
                        #[trigger] init[j],
                    );
                assert(!blank(texts[i]) && !blank(texts[j]));
            } else {
                let i = choose|i: int| 0 <= i < init.len() && !blank(#[trigger] init[i]);
                assert(!blank(texts[i]) && !blank(texts[n]));
            }
        }
        if exists|i: int, j: int|
            0 <= i < j < texts.len() && !blank(#[trigger] texts[i]) && !blank(#[trigger] texts[j]) {
            let (i, j) = choose|i: int, j: int|
                0 <= i < j < texts.len() && !blank(#[trigger] texts[i]) && !blank(
                    #[trigger] texts[j],
                );
            assert(init[i] == texts[i]);
            if j < n {
                assert(init[j] == texts[j]);
            }
        }
    }
}

/// A text is kept exactly if one of them is not blank.
proof fn lemma_one_kept(texts: Seq<Seq<char>>)
    ensures
        kept(texts).len() >= 1 <==> exists|i: int|
            0 <= i < texts.len() && !blank(#[trigger] texts[i]),
    decreases texts.len(),
{
    reveal(Seq::filter);
    if texts.len() > 0 {
        let init = texts.drop_last();
        lemma_one_kept(init);
        if kept(texts).len() >= 1 {
            if kept(init).len() >= 1 {
                let i = choose|i: int| 0 <= i < init.len() && !blank(#[trigger] init[i]);
                assert(!blank(texts[i]));
            } else {
                assert(!blank(texts[init.len() as int]));
            }
        }
        if exists|i: int| 0 <= i < texts.len() && !blank(#[trigger] texts[i]) {
            let i = choose|i: int| 0 <= i < texts.len() && !blank(#[trigger] texts[i]);
            if i < init.len() {
                assert(init[i] == texts[i]);
            }
        }
    }
}

/// Deduplication keeps each text once, loses none and adds none.
pub proof fn law_distinct_keeps_each_text_once(texts: Seq<Seq<char>>)
    ensures
        forall|i: int, j: int|
            0 <= i < j < distinct(texts).len() ==> #[trigger] distinct(texts)[i]
                != #[trigger] distinct(texts)[j],
        forall|p: int|
            0 <= p < texts.len() ==> exists|i: int|
                0 <= i < distinct(texts).len() && distinct(texts)[i] == #[trigger] texts[p],
        forall|i: int|
            0 <= i < distinct(texts).len() ==> exists|p: int|
                0 <= p < texts.len() && texts[p] == #[trigger] distinct(texts)[i],
{
    let d = distinct(texts);
    lemma_distinct_no_duplicates(texts);
    assert forall|p: int| 0 <= p < texts.len() implies exists|i: int|
        0 <= i < d.len() && d[i] == #[trigger] texts[p] by {
        lemma_distinct_contains(texts, texts[p]);
    }
    assert forall|i: int| 0 <= i < d.len() implies exists|p: int|
        0 <= p < texts.len() && texts[p] == #[trigger] d[i] by {
        lemma_distinct_contains(texts, d[i]);
    }
}

/// Of two texts that deduplication keeps, the one that it puts first occurs before every
/// occurrence of the other.
pub proof fn law_distinct_keeps_the_order(texts: Seq<Seq<char>>, i: int, j: int, q: int)
    requires
        0 <= i < j < distinct(texts).len(),
        0 <= q < texts.len(),
        texts[q] == distinct(texts)[j],
    ensures
        exists|p: int| 0 <= p < q && #[trigger] texts[p] == distinct(texts)[i],
    decreases texts.len(),
{
    let init = texts.drop_last();
    let d = distinct(init);
    let n = init.len() as int;
    if j < d.len() && q < n {
        assert(init[q] == texts[q]);
        law_distinct_keeps_the_order(init, i, j, q);
        let p = choose|p: int| 0 <= p < q && #[trigger] init[p] == d[i];
        assert(texts[p] == distinct(texts)[i]);
    } else {
        if q < n {
            assert(init[q] == texts[n]);
            assert(init.contains(texts[n]));
        }
        assert(d.contains(d[i]));
        lemma_distinct_contains(init, d[i]);
        let p = choose|p: int| 0 <= p < init.len() && init[p] == d[i];
        assert(texts[p] == distinct(texts)[i]);
    }
}

} // verus!
