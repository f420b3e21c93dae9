//! The combinators: functions that make a new parser out of parsers.
//!
//! A combinator never runs a parser of its own accord at another place of
//! the text: a sequence runs its second parser where the first one stopped,
//! an alternative runs its second parser where the first one started. Only
//! `not` moves along the text, and that is all it does.
//!
//! What a combined parser hands back depends on what its parts hand back,
//! and a part is any function, of which nothing is known but its contract.
//! The contract of a combinator therefore says of every outcome of the
//! combined parser from which outcomes of the parts it arises.
/// Sequences of parsers that fail with an error.
pub mod and_parse;
/// Sequences of parsers that always hand the text back.
pub mod concat;
/// Sequences that hand an error on as it is.
pub mod join;
/// A function applied to what a parser that always hands the text back found.
pub mod map;
/// A function applied to what a parser that fails with an error found.
pub mod map_parse;
/// The search for the first place at which a parser succeeds.
pub mod not;
/// Alternatives of parsers that fail with an error.
pub mod or_parse;
/// A parser with a substitute for where it fails.
pub mod substitute;

pub use and_parse::{and, and_a, and_b};
pub use concat::{cat, cat_a, cat_b};
pub use join::join;
pub use not::not;
pub use or_parse::{or, or_ab, OrResult};
pub use substitute::{sub, sub_uncheck, SubResult};
