//! `qplan`: query planning for retrieval, with machine-checked contracts.
//!
//! A [`QExpr`] says what a query means. [`compile_conjunctive`] turns that meaning into a
//! small [`ConjunctivePlan`] that an execution backend can run: a bag of terms from which
//! candidates are generated, and positional constraints with which candidates are verified.
//!
//! The compiler is narrow on purpose. It takes terms, phrases, NEAR constraints and AND trees
//! over them, and answers every other operator with an explicit [`Error`], so that a caller
//! can choose a fallback.
//!
//! Which plan an expression has is defined in [`planning`]; [`laws`], [`outcomes`] and
//! [`meaning`] hold what is proved of every compilation, and [`characters`] what is proved of
//! texts. [`algebra`] and [`cost`] serve an optimizer of boolean
//! queries: rewrites that keep the meaning of a query, and what its nodes cost.

pub mod algebra;
pub mod characters;
pub mod compile;
pub mod cost;
pub mod error;
pub mod expr;
pub mod laws;
pub mod meaning;
pub mod outcomes;
pub mod plan;
pub mod planning;
pub mod texts;

pub use compile::compile_conjunctive;
pub use error::Error;
pub use expr::{FieldName, Near, Phrase, QExpr, Term};
pub use plan::{ConjunctivePlan, NearPlan};
