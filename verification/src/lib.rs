//! A small toolkit of parser combinators and, built on it, a parser and
//! evaluator for arithmetic expressions.
//!
//! A parser is a pure function from a text to a value and the text that it
//! leaves over. The library has parsers in two forms:
//!
//! * [`parser::base`] holds the parsers that fail with an error: they hand
//!   back `Ok((rest, value))` or `Err(error)`. The combinators `and`, `or`,
//!   `map` and `join` of [`parser::combinator`] compose them, and the grammar
//!   of [`parser::numerical_expression`] is written in this form.
//! * [`parser::str_parser`] holds the parsers that always hand the text back:
//!   their result is `(rest, value)`, and where they can fail the value is a
//!   `Result`. The combinators `cat`, `sub`, `map` and `not` compose them.
//!
//! What holds of every parser in the library: the text that it leaves over
//! is a suffix of the text that it was given. What holds of the grammar:
//! the parser of expressions hands back exactly what the grammar, written
//! down as a function on sequences of characters, reads, the tree and the
//! failure alike; and the evaluation of a tree goes from left to right for
//! sums and products and from right to left for powers.
//!
//! [`keisan`] is the smallest calculator that can be made of these parsers:
//! it adds two numbers.
//!
//! [`number::Number`] is an integer or a floating-point value. The library
//! contains no floating-point code of its own: the arithmetic on
//! floating-point values is a parameter, the trait [`number::Float`].
/// A calculator for the sum of two numbers.
pub mod keisan;
/// Numbers that are either integers or floating-point values.
pub mod number;
/// Parsers, combinators and the arithmetic grammar.
pub mod parser;
