//! The query algebra: patterns over boolean queries, and the identities by which queries are
//! rewritten.

use vstd::prelude::*;

verus! {

/// A pattern over boolean queries.
#[derive(Debug, PartialEq, Eq)]
pub enum Pattern {
    /// The variable `?x`.
    X,
    /// The variable `?y`.
    Y,
    /// The variable `?z`.
    Z,
    /// The query that everything matches.
    True,
    /// The query that nothing matches.
    False,
    /// Conjunction.
    And(Box<Pattern>, Box<Pattern>),
    /// Disjunction.
    Or(Box<Pattern>, Box<Pattern>),
    /// Negation.
    Not(Box<Pattern>),
}

/// A rewrite of queries from `left` to `right`.
#[derive(Debug, PartialEq, Eq)]
pub struct Rewrite {
    /// The name of the rewrite.
    pub name: String,
    /// The pattern that is searched.
    pub left: Pattern,
    /// The pattern that takes its place.
    pub right: Pattern,
}

/// What a [`Rewrite`] stands for.
pub struct Identity {
    /// The name of the rewrite.
    pub name: Seq<char>,
    /// The pattern that is searched.
    pub left: Pattern,
    /// The pattern that takes its place.
    pub right: Pattern,
}

impl DeepView for Rewrite {
    type V = Identity;

    open spec fn deep_view(&self) -> Identity {
        identity(self.name@, self.left, self.right)
    }
}

/// An identity of its parts.
pub open spec fn identity(name: Seq<char>, left: Pattern, right: Pattern) -> Identity {
    Identity { name, left, right }
}

/// The conjunction of two patterns.
pub open spec fn spec_and(a: Pattern, b: Pattern) -> Pattern {
    Pattern::And(Box::new(a), Box::new(b))
}

/// The disjunction of two patterns.
pub open spec fn spec_or(a: Pattern, b: Pattern) -> Pattern {
    Pattern::Or(Box::new(a), Box::new(b))
}

/// The negation of a pattern.
pub open spec fn spec_not(a: Pattern) -> Pattern {
    Pattern::Not(Box::new(a))
}

/// What a document says of the variables.
pub struct Assignment {
    /// Whether it matches `?x`.
    pub x: bool,
    /// Whether it matches `?y`.
    pub y: bool,
    /// Whether it matches `?z`.
    pub z: bool,
}

impl Pattern {
    /// Whether a document matches the pattern.
    pub open spec fn holds(self, doc: Assignment) -> bool
        decreases self,
    {
        match self {
            Pattern::X => doc.x,
            Pattern::Y => doc.y,
            Pattern::Z => doc.z,
            Pattern::True => true,
            Pattern::False => false,
            Pattern::And(a, b) => a.holds(doc) && b.holds(doc),
            Pattern::Or(a, b) => a.holds(doc) || b.holds(doc),
            Pattern::Not(a) => !a.holds(doc),
        }
    }

    /// Whether the variable `v` occurs in the pattern.
    pub open spec fn mentions(self, v: Pattern) -> bool
        decreases self,
    {
        match self {
            Pattern::And(a, b) => a.mentions(v) || b.mentions(v),
            Pattern::Or(a, b) => a.mentions(v) || b.mentions(v),
            Pattern::Not(a) => a.mentions(v),
            _ => self == v,
        }
    }

    /// The pattern as a symbolic expression.
    pub open spec fn sexpr(self) -> Seq<char>
        decreases self,
    {
        match self {
            Pattern::X => "?x"@,
            Pattern::Y => "?y"@,
            Pattern::Z => "?z"@,
            Pattern::True => "true"@,
            Pattern::False => "false"@,
            Pattern::And(a, b) => "(and "@ + a.sexpr() + " "@ + b.sexpr() + ")"@,
            Pattern::Or(a, b) => "(or "@ + a.sexpr() + " "@ + b.sexpr() + ")"@,
            Pattern::Not(a) => "(not "@ + a.sexpr() + ")"@,
        }
    }

    /// Returns the pattern as a symbolic expression.
    pub fn to_sexpr(&self) -> (text: String)
        ensures
            text@ == self.sexpr(),
        decreases self,
    {
        match self {
            Pattern::X => "?x".to_owned(),
            Pattern::Y => "?y".to_owned(),
            Pattern::Z => "?z".to_owned(),
            Pattern::True => "true".to_owned(),
            Pattern::False => "false".to_owned(),
            Pattern::And(a, b) => binary_sexpr("(and ", a.to_sexpr(), b.to_sexpr()),
            Pattern::Or(a, b) => binary_sexpr("(or ", a.to_sexpr(), b.to_sexpr()),
            Pattern::Not(a) => {
                let mut text = "(not ".to_owned();
                text.append(a.to_sexpr().as_str());
                text.append(")");
                text
            },
        }
    }
}

/// Joins the texts of two operands behind the text that opens the expression.
fn binary_sexpr(open: &str, a: String, b: String) -> (text: String)
    ensures
        text@ == open@ + a@ + " "@ + b@ + ")"@,
{
    let mut text = open.to_owned();
    text.append(a.as_str());
    text.append(" ");
    text.append(b.as_str());
    text.append(")");
    text
}

/// The identities by which queries are rewritten, in order: idempotency, double negation,
/// identity elements, annihilation, commutativity, absorption, and, in both directions,
/// associativity and distribution.
pub open spec fn identities() -> Seq<Identity> {
    seq![
        identity("and-idem"@, spec_and(Pattern::X, Pattern::X), Pattern::X),
        identity("or-idem"@, spec_or(Pattern::X, Pattern::X), Pattern::X),
        identity("not-not"@, spec_not(spec_not(Pattern::X)), Pattern::X),
        identity("and-true"@, spec_and(Pattern::X, Pattern::True), Pattern::X),
        identity("or-false"@, spec_or(Pattern::X, Pattern::False), Pattern::X),
        identity("and-false"@, spec_and(Pattern::X, Pattern::False), Pattern::False),
        identity("or-true"@, spec_or(Pattern::X, Pattern::True), Pattern::True),
        identity("and-comm"@, spec_and(Pattern::X, Pattern::Y), spec_and(Pattern::Y, Pattern::X)),
        identity("or-comm"@, spec_or(Pattern::X, Pattern::Y), spec_or(Pattern::Y, Pattern::X)),
        identity("and-absorb"@, spec_and(Pattern::X, spec_or(Pattern::X, Pattern::Y)), Pattern::X),
        identity("or-absorb"@, spec_or(Pattern::X, spec_and(Pattern::X, Pattern::Y)), Pattern::X),
        identity("and-assoc"@, spec_and(Pattern::X, spec_and(Pattern::Y, Pattern::Z)), spec_and(spec_and(Pattern::X, Pattern::Y), Pattern::Z)),
        identity("and-assoc-rev"@, spec_and(spec_and(Pattern::X, Pattern::Y), Pattern::Z), spec_and(Pattern::X, spec_and(Pattern::Y, Pattern::Z))),
        identity("or-assoc"@, spec_or(Pattern::X, spec_or(Pattern::Y, Pattern::Z)), spec_or(spec_or(Pattern::X, Pattern::Y), Pattern::Z)),
        identity("or-assoc-rev"@, spec_or(spec_or(Pattern::X, Pattern::Y), Pattern::Z), spec_or(Pattern::X, spec_or(Pattern::Y, Pattern::Z))),
        identity("and-dist-or"@, spec_and(Pattern::X, spec_or(Pattern::Y, Pattern::Z)), spec_or(spec_and(Pattern::X, Pattern::Y), spec_and(Pattern::X, Pattern::Z))),
        identity("and-dist-or-rev"@, spec_or(spec_and(Pattern::X, Pattern::Y), spec_and(Pattern::X, Pattern::Z)), spec_and(Pattern::X, spec_or(Pattern::Y, Pattern::Z))),
    ]
}

/// The conjunction of two patterns.
fn and(a: Pattern, b: Pattern) -> (p: Pattern)
    ensures
        p == spec_and(a, b),
{
    Pattern::And(Box::new(a), Box::new(b))
}

/// The disjunction of two patterns.
fn or(a: Pattern, b: Pattern) -> (p: Pattern)
    ensures
        p == spec_or(a, b),
{
    Pattern::Or(Box::new(a), Box::new(b))
}

/// The negation of a pattern.
fn not(a: Pattern) -> (p: Pattern)
    ensures
        p == spec_not(a),
{
    Pattern::Not(Box::new(a))
}

/// A rewrite of its parts.
fn rewrite(name: &str, left: Pattern, right: Pattern) -> (r: Rewrite)
    ensures
        r.deep_view() == identity(name@, left, right),
{
    Rewrite { name: name.to_owned(), left, right }
}

/// Returns the rewrites.
pub fn rules() -> (rules: Vec<Rewrite>)
    ensures
        rules.deep_view() == identities(),
        rules@.len() == identities().len(),
        forall|i: int|
            0 <= i < rules@.len() ==> {
                &&& (#[trigger] rules@[i]).name@ == identities()[i].name
                &&& rules@[i].left == identities()[i].left
                &&& rules@[i].right == identities()[i].right
            },
{
    let rules = vec![
        rewrite("and-idem", and(Pattern::X, Pattern::X), Pattern::X),
        rewrite("or-idem", or(Pattern::X, Pattern::X), Pattern::X),
        rewrite("not-not", not(not(Pattern::X)), Pattern::X),
        rewrite("and-true", and(Pattern::X, Pattern::True), Pattern::X),
        rewrite("or-false", or(Pattern::X, Pattern::False), Pattern::X),
        rewrite("and-false", and(Pattern::X, Pattern::False), Pattern::False),
        rewrite("or-true", or(Pattern::X, Pattern::True), Pattern::True),
        rewrite("and-comm", and(Pattern::X, Pattern::Y), and(Pattern::Y, Pattern::X)),
        rewrite("or-comm", or(Pattern::X, Pattern::Y), or(Pattern::Y, Pattern::X)),
        rewrite("and-absorb", and(Pattern::X, or(Pattern::X, Pattern::Y)), Pattern::X),
        rewrite("or-absorb", or(Pattern::X, and(Pattern::X, Pattern::Y)), Pattern::X),
        rewrite("and-assoc", and(Pattern::X, and(Pattern::Y, Pattern::Z)), and(and(Pattern::X, Pattern::Y), Pattern::Z)),
        rewrite("and-assoc-rev", and(and(Pattern::X, Pattern::Y), Pattern::Z), and(Pattern::X, and(Pattern::Y, Pattern::Z))),
        rewrite("or-assoc", or(Pattern::X, or(Pattern::Y, Pattern::Z)), or(or(Pattern::X, Pattern::Y), Pattern::Z)),
        rewrite("or-assoc-rev", or(or(Pattern::X, Pattern::Y), Pattern::Z), or(Pattern::X, or(Pattern::Y, Pattern::Z))),
        rewrite("and-dist-or", and(Pattern::X, or(Pattern::Y, Pattern::Z)), or(and(Pattern::X, Pattern::Y), and(Pattern::X, Pattern::Z))),
        rewrite("and-dist-or-rev", or(and(Pattern::X, Pattern::Y), and(Pattern::X, Pattern::Z)), and(Pattern::X, or(Pattern::Y, Pattern::Z))),
    ];
    assert(rules.deep_view() =~= identities());
    assert forall|i: int| 0 <= i < rules@.len() implies {
        &&& (#[trigger] rules@[i]).name@ == identities()[i].name
        &&& rules@[i].left == identities()[i].left
        &&& rules@[i].right == identities()[i].right
    } by {
        assert(rules.deep_view()[i] == rules@[i].deep_view());
    }
    rules
}

/// The rewrites keep the meaning of a query: a document matches both sides of each or neither.
pub proof fn law_rewrites_are_identities(i: int, doc: Assignment)
    requires
        0 <= i < identities().len(),
    ensures
        identities()[i].left.holds(doc) == identities()[i].right.holds(doc),
{
    reveal_with_fuel(Pattern::holds, 4);
}

/// No rewrite needs a variable that its left side does not bind.
pub proof fn law_rewrites_bind_their_variables(i: int, v: Pattern)
    requires
        0 <= i < identities().len(),
        v is X || v is Y || v is Z,
        identities()[i].right.mentions(v),
    ensures
        identities()[i].left.mentions(v),
{
    reveal_with_fuel(Pattern::mentions, 4);
}

/// A variable or a constant is written as its name, and an operator as the texts of its operands
/// behind its own name, separated by single spaces and enclosed in brackets.
pub proof fn law_text_is_made_of_the_operands(a: Pattern, b: Pattern)
    ensures
        Pattern::X.sexpr() == seq!['?', 'x'],
        Pattern::Y.sexpr() == seq!['?', 'y'],
        Pattern::Z.sexpr() == seq!['?', 'z'],
        Pattern::True.sexpr() == seq!['t', 'r', 'u', 'e'],
        Pattern::False.sexpr() == seq!['f', 'a', 'l', 's', 'e'],
        Pattern::And(Box::new(a), Box::new(b)).sexpr() == seq!['(', 'a', 'n', 'd', ' '] + a.sexpr()
            + seq![' '] + b.sexpr() + seq![')'],
        Pattern::Or(Box::new(a), Box::new(b)).sexpr() == seq!['(', 'o', 'r', ' '] + a.sexpr()
            + seq![' '] + b.sexpr() + seq![')'],
        Pattern::Not(Box::new(a)).sexpr() == seq!['(', 'n', 'o', 't', ' '] + a.sexpr() + seq![')'],
{
    lemma_literals();
    assert(Pattern::And(Box::new(a), Box::new(b)).sexpr() == "(and "@ + a.sexpr() + " "@ + b.sexpr()
        + ")"@);
    assert(Pattern::Or(Box::new(a), Box::new(b)).sexpr() == "(or "@ + a.sexpr() + " "@ + b.sexpr()
        + ")"@);
    assert(Pattern::Not(Box::new(a)).sexpr() == "(not "@ + a.sexpr() + ")"@);
}

/// What the pieces of the texts hold.
proof fn lemma_literals()
    ensures
        "?x"@ == seq!['?', 'x'],
        "?y"@ == seq!['?', 'y'],
        "?z"@ == seq!['?', 'z'],
        "true"@ == seq!['t', 'r', 'u', 'e'],
        "false"@ == seq!['f', 'a', 'l', 's', 'e'],
        "(and "@ == seq!['(', 'a', 'n', 'd', ' '],
        "(or "@ == seq!['(', 'o', 'r', ' '],
        "(not "@ == seq!['(', 'n', 'o', 't', ' '],
        " "@ == seq![' '],
        ")"@ == seq![')'],
{
    reveal_strlit("?x");
    reveal_strlit("?y");
    reveal_strlit("?z");
    reveal_strlit("true");
    reveal_strlit("false");
    reveal_strlit("(and ");
    reveal_strlit("(or ");
    reveal_strlit("(not ");
    reveal_strlit(" ");
    reveal_strlit(")");
}

/// What follows equal beginnings of equal texts is equal.
proof fn lemma_strip(prefix: Seq<char>, s: Seq<char>, t: Seq<char>)
    requires
        prefix + s == prefix + t,
    ensures
        s == t,
{
    assert(s =~= (prefix + s).skip(prefix.len() as int));
    assert(t =~= (prefix + t).skip(prefix.len() as int));
}

/// A text that begins with the text of a pattern begins with that of no other pattern.
proof fn lemma_text_is_unambiguous(p: Pattern, q: Pattern, s: Seq<char>, t: Seq<char>)
    requires
        p.sexpr() + s == q.sexpr() + t,
    ensures
        p == q,
        s == t,
    decreases p,
{
    lemma_literals();
    let ps = p.sexpr() + s;
    let qt = q.sexpr() + t;
    lemma_beginning(p, s);
    lemma_beginning(q, t);
    match (p, q) {
        (Pattern::And(a, b), Pattern::And(c, d)) => {
            lemma_binary("(and "@, *a, *b, *c, *d, s, t);
            lemma_text_is_unambiguous(*a, *c, " "@ + (b.sexpr() + (")"@ + s)), " "@ + (d.sexpr() + (
            ")"@ + t)));
            lemma_strip(" "@, b.sexpr() + (")"@ + s), d.sexpr() + (")"@ + t));
            lemma_text_is_unambiguous(*b, *d, ")"@ + s, ")"@ + t);
            lemma_strip(")"@, s, t);
        },
        (Pattern::Or(a, b), Pattern::Or(c, d)) => {
            lemma_binary("(or "@, *a, *b, *c, *d, s, t);
            lemma_text_is_unambiguous(*a, *c, " "@ + (b.sexpr() + (")"@ + s)), " "@ + (d.sexpr() + (
            ")"@ + t)));
            lemma_strip(" "@, b.sexpr() + (")"@ + s), d.sexpr() + (")"@ + t));
            lemma_text_is_unambiguous(*b, *d, ")"@ + s, ")"@ + t);
            lemma_strip(")"@, s, t);
        },
        (Pattern::Not(a), Pattern::Not(c)) => {
            assert(ps =~= "(not "@ + (a.sexpr() + (")"@ + s)));
            assert(qt =~= "(not "@ + (c.sexpr() + (")"@ + t)));
            lemma_strip("(not "@, a.sexpr() + (")"@ + s), c.sexpr() + (")"@ + t));
            lemma_text_is_unambiguous(*a, *c, ")"@ + s, ")"@ + t);
            lemma_strip(")"@, s, t);
        },
        _ => {
            assert(ps[0] == qt[0] && ps[1] == qt[1]);
            assert(p == q);
            lemma_strip(p.sexpr(), s, t);
        },
    }
}

/// The first two characters of a text tell what pattern it begins with.
proof fn lemma_beginning(p: Pattern, s: Seq<char>)
    ensures
        (p.sexpr() + s).len() >= 2,
        (p.sexpr() + s)[0] == match p {
            Pattern::X | Pattern::Y | Pattern::Z => '?',
            Pattern::True => 't',
            Pattern::False => 'f',
            _ => '(',
        },
        (p.sexpr() + s)[1] == match p {
            Pattern::X => 'x',
            Pattern::Y => 'y',
            Pattern::Z => 'z',
            Pattern::True => 'r',
            Pattern::False => 'a',
            Pattern::And(_, _) => 'a',
            Pattern::Or(_, _) => 'o',
            Pattern::Not(_) => 'n',
        },
{
    lemma_literals();
}

/// What follows the opening of two equal texts of binary operators.
proof fn lemma_binary(
    open: Seq<char>,
    a: Pattern,
    b: Pattern,
    c: Pattern,
    d: Pattern,
    s: Seq<char>,
    t: Seq<char>,
)
    requires
        open + a.sexpr() + " "@ + b.sexpr() + ")"@ + s == open + c.sexpr() + " "@ + d.sexpr() + ")"@
            + t,
    ensures
        a.sexpr() + (" "@ + (b.sexpr() + (")"@ + s))) == c.sexpr() + (" "@ + (d.sexpr() + (")"@
            + t))),
{
    let x = a.sexpr() + (" "@ + (b.sexpr() + (")"@ + s)));
    let y = c.sexpr() + (" "@ + (d.sexpr() + (")"@ + t)));
    assert(open + x =~= open + a.sexpr() + " "@ + b.sexpr() + ")"@ + s);
    assert(open + y =~= open + c.sexpr() + " "@ + d.sexpr() + ")"@ + t);
    lemma_strip(open, x, y);
}

/// Different patterns have different texts.
pub proof fn law_texts_tell_patterns_apart(p: Pattern, q: Pattern)
    requires
        p.sexpr() == q.sexpr(),
    ensures
        p == q,
{
    lemma_text_is_unambiguous(p, q, Seq::empty(), Seq::empty());
}

} // verus!
