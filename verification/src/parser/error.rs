use vstd::prelude::*;
use crate::number;

verus! {

/// Why a run of digits is no 64-bit integer.
#[derive(Debug, PartialEq, Eq, Clone, Copy, Structural)]
pub enum IntErrorKind {
    /// There was no digit.
    Empty,
    /// The digits denote a number too large for the integer type.
    PosOverflow,
}

/// Why a text is no floating-point number.
#[derive(Debug, PartialEq, Eq, Clone, Copy, Structural)]
pub enum FloatErrorKind {
    /// There was no text.
    Empty,
    /// The text is no decimal number.
    Invalid,
}

impl IntErrorKind {
    /// The text that describes this cause.
    pub open spec fn text(self) -> Seq<char> {
        match self {
            IntErrorKind::Empty => "cannot parse integer from empty string"@,
            IntErrorKind::PosOverflow => "number too large to fit in target type"@,
        }
    }

    /// The text that describes this cause.
    pub fn message(&self) -> (text: String)
        ensures
            text@ == self.text(),
    {
        match self {
            IntErrorKind::Empty => "cannot parse integer from empty string".to_owned(),
            IntErrorKind::PosOverflow => "number too large to fit in target type".to_owned(),
        }
    }
}

impl FloatErrorKind {
    /// The text that describes this cause.
    pub open spec fn text(self) -> Seq<char> {
        match self {
            FloatErrorKind::Empty => "cannot parse float from empty string"@,
            FloatErrorKind::Invalid => "invalid float literal"@,
        }
    }

    /// The text that describes this cause.
    pub fn message(&self) -> (text: String)
        ensures
            text@ == self.text(),
    {
        match self {
            FloatErrorKind::Empty => "cannot parse float from empty string".to_owned(),
            FloatErrorKind::Invalid => "invalid float literal".to_owned(),
        }
    }
}

/// The failures of parsers and of the evaluation of what they parsed.
#[derive(Debug, PartialEq)]
pub enum Error {
    /// No integer could be read; carries the cause.
    ParseIntErrror(IntErrorKind),
    /// No floating-point number could be read; carries the cause.
    ParseFloatError(FloatErrorKind),
    /// The wanted character was not there.
    ParseCharError,
    /// The wanted string was not there.
    ParseStringError,
    /// A combinator failed. A sequence carries the error of the part that
    /// failed; an alternative carries the errors of both branches.
    CombinatorParseError(Box<Error>, Option<Box<Error>>),
    /// A calculation failed.
    NumberError(number::Error),
}

impl Error {
    /// The failure of a sequence one of whose parts failed with `cause`.
    pub open spec fn sequence(cause: Error) -> Error {
        Error::CombinatorParseError(Box::new(cause), None)
    }

    /// The failure of an alternative whose branches failed with `first` and
    /// `second`.
    pub open spec fn alternative(first: Error, second: Error) -> Error {
        Error::CombinatorParseError(Box::new(first), Some(Box::new(second)))
    }

    /// The text that describes this error. A combinator failure is described
    /// by its heading and, under `A:` and `B:`, the texts of the errors that
    /// it carries.
    pub open spec fn text(self) -> Seq<char>
        decreases self,
    {
        match self {
            Error::ParseIntErrror(cause) => cause.text(),
            Error::ParseFloatError(cause) => cause.text(),
            Error::ParseCharError => "ParseCharError"@,
            Error::ParseStringError => "ParseStringError"@,
            Error::NumberError(e) => e.spec_kind().name(),
            Error::CombinatorParseError(a, None) => "CombinatorParseError:\nA:\n"@ + a.text(),
            Error::CombinatorParseError(a, Some(b)) => "CombinatorParseError:\nA:\n"@ + a.text()
                + "\nB:\n"@ + b.text(),
        }
    }

    /// The text that describes this error.
    pub fn message(&self) -> (text: String)
        ensures
            text@ == self.text(),
        decreases self,
    {
        match self {
            Error::ParseIntErrror(cause) => cause.message(),
            Error::ParseFloatError(cause) => cause.message(),
            Error::ParseCharError => "ParseCharError".to_owned(),
            Error::ParseStringError => "ParseStringError".to_owned(),
            Error::NumberError(e) => e.message(),
            Error::CombinatorParseError(a, second) => {
                let mut text = "CombinatorParseError:\nA:\n".to_owned();
                let first = a.message();
                text.append(first.as_str());
                match second {
                    None => {},
                    Some(b) => {
                        text.append("\nB:\n");
                        let other = b.message();
                        text.append(other.as_str());
                    },
                }
                text
            },
        }
    }

    /// Wraps the error of a failed part of a sequence.
    pub fn in_sequence(cause: Error) -> (e: Error)
        ensures
            e == Error::sequence(cause),
    {
        Error::CombinatorParseError(Box::new(cause), None)
    }

    /// Joins the errors of the two failed branches of an alternative.
    pub fn in_alternative(first: Error, second: Error) -> (e: Error)
        ensures
            e == Error::alternative(first, second),
    {
        Error::CombinatorParseError(Box::new(first), Some(Box::new(second)))
    }

    /// Splits the failure of an alternative into one failure for each branch,
    /// each in the form that a sequence reports. Any other error has nothing
    /// to split.
    pub fn division_combinator_parse_error(self) -> (r: Option<(Error, Error)>)
        ensures
            r == match self {
                Error::CombinatorParseError(a, Some(b)) => Some(
                    (Error::sequence(*a), Error::sequence(*b)),
                ),
                _ => None,
            },
    {
        match self {
            Error::CombinatorParseError(a, Some(b)) => Some(
                (Error::CombinatorParseError(a, None), Error::CombinatorParseError(b, None)),
            ),
            _ => None,
        }
    }
}

impl From<number::Error> for Error {
    fn from(e: number::Error) -> (r: Error) {
        Error::NumberError(e)
    }
}

impl vstd::std_specs::convert::FromSpecImpl<number::Error> for Error {
    open spec fn obeys_from_spec() -> bool {
        true
    }

    open spec fn from_spec(e: number::Error) -> Error {
        Error::NumberError(e)
    }
}

} // verus!
