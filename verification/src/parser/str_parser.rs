//! The parsers that stand alone, in the form that always hands the text
//! back: each takes a text and hands back the text left over beside a value,
//! and where it can fail the value is a `Result`. A parser that fails hands
//! back the text as it got it.
/// One character.
pub mod char;
/// The error of these parsers.
pub mod error;
/// Nothing at all.
pub mod none;
/// An unsigned integer.
pub mod num;
/// A string.
pub mod string;
/// Whitespace.
pub mod trimer;

pub use self::char::char;
pub use error::{Error, ErrorKind};
pub use none::none;
pub use num::num;
pub use string::string;
pub use trimer::trimer;
