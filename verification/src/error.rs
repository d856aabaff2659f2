//! Why a query does not compile.

use vstd::prelude::*;

verus! {

/// Errors returned by the compiler.
#[derive(Debug, PartialEq, Eq, Structural)]
#[non_exhaustive]
pub enum Error {
    /// OR is not supported by the current compilation target.
    UnsupportedOr,
    /// NOT is not supported by the current compilation target.
    UnsupportedNot,
    /// Field scoping is not supported without field-aware indexing.
    UnsupportedField,
    /// A phrase or near constraint reduced to fewer than 2 terms after blank filtering.
    DegenerateConstraint,
    /// A near constraint has an empty window, in which no two terms fit.
    EmptyWindow,
}

impl Error {
    /// The text in which the error is reported.
    pub open spec fn spec_message(self) -> Seq<char> {
        match self {
            Error::UnsupportedOr => "unsupported operator: Or"@,
            Error::UnsupportedNot => "unsupported operator: Not"@,
            Error::UnsupportedField => "unsupported operator: Field"@,
            Error::DegenerateConstraint =>
                "constraint reduced to fewer than 2 terms after blank filtering"@,
            Error::EmptyWindow => "near constraint with an empty window"@,
        }
    }

    /// Returns the text in which the error is reported.
    pub fn message(&self) -> (text: String)
        ensures
            text@ == self.spec_message(),
    {
        let text = match self {
            Error::UnsupportedOr => "unsupported operator: Or",
            Error::UnsupportedNot => "unsupported operator: Not",
            Error::UnsupportedField => "unsupported operator: Field",
            Error::DegenerateConstraint =>
                "constraint reduced to fewer than 2 terms after blank filtering",
            Error::EmptyWindow => "near constraint with an empty window",
        };
        text.to_owned()
    }
}

impl Clone for Error {
    fn clone(&self) -> (copy: Error)
        ensures
            copy == *self,
    {
        match self {
            Error::UnsupportedOr => Error::UnsupportedOr,
            Error::UnsupportedNot => Error::UnsupportedNot,
            Error::UnsupportedField => Error::UnsupportedField,
            Error::DegenerateConstraint => Error::DegenerateConstraint,
            Error::EmptyWindow => Error::EmptyWindow,
        }
    }
}

} // verus!
