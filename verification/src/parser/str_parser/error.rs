use vstd::prelude::*;
use crate::parser::error::IntErrorKind;

verus! {

/// The reasons for which a parser of this family fails.
#[derive(Debug, PartialEq, Eq, Clone, Copy)]
pub enum ErrorKind {
    /// No number could be read; carries the cause.
    ParseNumError(IntErrorKind),
    /// The wanted character was not there.
    ParseCharError,
    /// The wanted string was not there.
    ParseStringError,
}

impl ErrorKind {
    /// The text that describes this kind; for a number that could not be
    /// read, the text of the cause follows on a line of its own.
    pub open spec fn text(self) -> Seq<char> {
        match self {
            ErrorKind::ParseNumError(cause) => "failed parse to number\n"@ + cause.text(),
            ErrorKind::ParseCharError => "failed parse to char"@,
            ErrorKind::ParseStringError => "failed parse to string"@,
        }
    }

    /// The text that describes this kind.
    pub fn message(&self) -> (text: String)
        ensures
            text@ == self.text(),
    {
        match self {
            ErrorKind::ParseNumError(cause) => {
                let mut text = "failed parse to number\n".to_owned();
                let why = cause.message();
                text.append(why.as_str());
                text
            },
            ErrorKind::ParseCharError => "failed parse to char".to_owned(),
            ErrorKind::ParseStringError => "failed parse to string".to_owned(),
        }
    }
}

/// The error of a parser of this family. What went wrong is its kind.
#[derive(Debug, PartialEq, Eq, Clone, Copy)]
pub struct Error {
    kind: ErrorKind,
}

impl Error {
    /// The error of the given kind.
    pub closed spec fn of(kind: ErrorKind) -> Error {
        Error { kind }
    }

    /// The kind of this error, for use in contracts.
    pub closed spec fn spec_kind(self) -> ErrorKind {
        self.kind
    }

    /// An error has the kind that it was made with.
    pub broadcast proof fn lemma_of_kind(kind: ErrorKind)
        ensures
            (#[trigger] Error::of(kind)).spec_kind() == kind,
    {
    }

    /// An error is determined by its kind.
    pub proof fn lemma_kind_determines(self)
        ensures
            self == Error::of(self.spec_kind()),
    {
    }

    /// Creates the error of the given kind.
    pub fn new(kind: ErrorKind) -> (e: Error)
        ensures
            e == Error::of(kind),
    {
        Error { kind }
    }

    /// The kind of this error.
    pub fn kind(&self) -> (k: &ErrorKind)
        ensures
            *k == self.spec_kind(),
    {
        &self.kind
    }

    /// The text that describes this error: that of its kind.
    pub fn message(&self) -> (text: String)
        ensures
            text@ == self.spec_kind().text(),
    {
        self.kind.message()
    }
}

} // verus!
