//! Query expressions, and what it means for a term to be blank.

use vstd::prelude::*;

verus! {

/// A single search term.
#[derive(Debug, PartialEq, Eq)]
pub struct Term(pub String);

/// Terms that must occur next to each other, in order.
#[derive(Debug, PartialEq, Eq)]
pub struct Phrase {
    /// The terms of the phrase, in order.
    pub terms: Vec<Term>,
}

/// Terms that must occur close to each other.
#[derive(Debug, PartialEq, Eq)]
pub struct Near {
    /// The terms that participate.
    pub terms: Vec<Term>,
    /// Window size in tokens.
    pub window: u32,
    /// If true, the terms must occur in order.
    pub ordered: bool,
}

/// The name of a document field.
#[derive(Debug, PartialEq, Eq)]
pub struct FieldName(pub String);

/// A query expression.
#[derive(Debug, PartialEq, Eq)]
pub enum QExpr {
    /// A single term.
    Term(Term),
    /// A phrase constraint.
    Phrase(Phrase),
    /// A proximity constraint.
    Near(Near),
    /// All of the operands.
    And(Vec<QExpr>),
    /// At least one of the operands.
    Or(Vec<QExpr>),
    /// Not the operand.
    Not(Box<QExpr>),
    /// The operand, within one field.
    Field(FieldName, Box<QExpr>),
}

/// The characters with the Unicode property `White_Space`.
pub open spec fn white_space(c: char) -> bool {
    ||| '\u{9}' <= c <= '\u{D}'
    ||| c == '\u{20}'
    ||| c == '\u{85}'
    ||| c == '\u{A0}'
    ||| c == '\u{1680}'
    ||| '\u{2000}' <= c <= '\u{200A}'
    ||| '\u{2028}' <= c <= '\u{2029}'
    ||| c == '\u{202F}'
    ||| c == '\u{205F}'
    ||| c == '\u{3000}'
}

/// A text is blank if it holds nothing but white space.
pub open spec fn blank(text: Seq<char>) -> bool {
    forall|i: int| 0 <= i < text.len() ==> white_space(#[trigger] text[i])
}

impl DeepView for Term {
    type V = Seq<char>;

    open spec fn deep_view(&self) -> Seq<char> {
        self.0@
    }
}

/// Whether `c` has the Unicode property `White_Space`.
fn is_white_space(c: char) -> (b: bool)
    ensures
        b == white_space(c),
{
    ('\u{9}' <= c && c <= '\u{D}') || c == '\u{20}' || c == '\u{85}' || c == '\u{A0}' || c
        == '\u{1680}' || ('\u{2000}' <= c && c <= '\u{200A}') || ('\u{2028}' <= c && c
        <= '\u{2029}') || c == '\u{202F}' || c == '\u{205F}' || c == '\u{3000}'
}

impl Term {
    /// Makes a term of the given text, which it keeps as it is.
    pub fn new(text: &str) -> (term: Term)
        ensures
            term.deep_view() == text@,
            term.0@ == text@,
    {
        Term(text.to_owned())
    }

    /// Whether the term is empty or holds nothing but white space.
    pub fn is_blank(&self) -> (b: bool)
        ensures
            b == blank(self.deep_view()),
            b <==> forall|i: int| 0 <= i < self.0@.len() ==> white_space(#[trigger] self.0@[i]),
    {
        for c in it: self.0.as_str().chars()
            invariant
                it.seq() == self.0@,
                forall|i: int| 0 <= i < it.index() ==> white_space(#[trigger] self.0@[i]),
        {
            if !is_white_space(c) {
                assert(!white_space(self.0@[it.index() as int]));
                return false;
            }
        }
        true
    }
}

impl Clone for Term {
    fn clone(&self) -> (copy: Term)
        ensures
            copy.deep_view() == self.deep_view(),
            copy.0@ == self.0@,
    {
        Term(self.0.clone())
    }
}

impl Phrase {
    /// Makes a phrase of the given terms.
    pub fn new(terms: Vec<Term>) -> (phrase: Phrase)
        ensures
            phrase.terms == terms,
    {
        Phrase { terms }
    }
}

impl Near {
    /// Makes a proximity constraint over the given terms.
    pub fn new(terms: Vec<Term>, window: u32, ordered: bool) -> (near: Near)
        ensures
            near.terms == terms,
            near.window == window,
            near.ordered == ordered,
    {
        Near { terms, window, ordered }
    }
}

impl FieldName {
    /// Makes a field name of the given text.
    pub fn new(name: &str) -> (field: FieldName)
        ensures
            field.0@ == name@,
    {
        FieldName(name.to_owned())
    }
}

} // verus!
