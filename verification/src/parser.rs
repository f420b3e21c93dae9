/// The parsers that stand alone.
pub mod base;
/// The combinators.
pub mod combinator;
/// The failures of parsers.
pub mod error;
/// The evaluation of parsed expressions.
pub mod evaluation;
/// How an evaluation can fail.
pub mod failure;
/// Evaluation on integers: what it yields, and that it yields nothing else.
pub mod integer;
/// The grammar of arithmetic expressions.
pub mod numerical_expression;
/// What it means for a parser to be total and to consume forward.
pub mod outcome;
/// The parsers that always hand the text back.
pub mod str_parser;
/// What the parsers know about text: whitespace, digit runs, suffixes.
pub mod text;

pub use error::{Error, FloatErrorKind, IntErrorKind};
pub use numerical_expression::{Exponent, Expression, Factor, Term};

use vstd::prelude::*;

verus! {

/// A parser of the form that always hands the text back: a function from a
/// text to the text left over and a value, which may itself be a failure.
pub trait Parser<I, R>: Fn(I) -> (I, R) {

}

impl<I, R, F> Parser<I, R> for F where F: Fn(I) -> (I, R) {

}

} // verus!
