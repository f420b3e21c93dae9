//! The parsers that stand alone: they look at the front of a text and either
//! hand back a value and the text behind it, or fail.
/// One character.
pub mod char;
/// Nothing at all.
pub mod none;
/// An integer.
pub mod num;
/// An integer or a decimal number.
pub mod num_ex;
/// A string.
pub mod string;
/// Whitespace, then another parser.
pub mod trim_and;
/// Whitespace.
pub mod trimer;

pub use self::char::char;
pub use none::none;
pub use num::num;
pub use num_ex::{literal, num_ex, number_of, Literal};
pub use string::string;
pub use trim_and::{space_trimer, trim_and};
pub use trimer::trimer;

use vstd::prelude::*;
use crate::parser::error::Error;

verus! {

/// A parser of the form that fails with an error: a function from a text to
/// either the text left over and a value, or an error.
pub trait Parser<I, O>: Fn(I) -> Result<(I, O), Error> {

}

impl<I, O, F> Parser<I, O> for F where F: Fn(I) -> Result<(I, O), Error> {

}

} // verus!
