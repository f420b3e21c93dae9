use vstd::prelude::*;

verus! {

/// The reasons for which a calculation on numbers fails.
#[derive(Debug, PartialEq, Eq, Clone, Copy, Structural)]
pub enum ErrorKind {
    /// The divisor was zero.
    ZeroDiv,
    /// Reserved for a power that has no value; no operation reports it.
    InvalidExponent,
}

impl ErrorKind {
    /// The name under which this kind is shown.
    pub open spec fn name(self) -> Seq<char> {
        match self {
            ErrorKind::ZeroDiv => "NumberZeroDivError"@,
            ErrorKind::InvalidExponent => "NumberPowError"@,
        }
    }

    /// The text that describes this kind.
    pub fn message(&self) -> (text: String)
        ensures
            text@ == self.name(),
    {
        match self {
            ErrorKind::ZeroDiv => "NumberZeroDivError".to_owned(),
            ErrorKind::InvalidExponent => "NumberPowError".to_owned(),
        }
    }
}

/// The error of a calculation on numbers.
#[derive(Debug, PartialEq, Eq, Clone, Copy, Structural)]
pub struct Error {
    kind: ErrorKind,
}

impl Error {
    /// The error of the given kind.
    pub closed spec fn of(kind: ErrorKind) -> Error {
        Error { kind }
    }

    /// The kind of this error, for use in contracts.
    pub closed spec fn spec_kind(self) -> ErrorKind {
        self.kind
    }

    /// An error is determined by its kind.
    pub broadcast proof fn lemma_of_kind(kind: ErrorKind)
        ensures
            (#[trigger] Error::of(kind)).spec_kind() == kind,
    {
    }

    /// Two errors of one kind are the same error.
    pub proof fn lemma_kind_determines(self)
        ensures
            self == Error::of(self.spec_kind()),
    {
    }

    /// Creates the error of the given kind.
    pub fn new(kind: ErrorKind) -> (e: Error)
        ensures
            e == Error::of(kind),
    {
        Error { kind }
    }

    /// The kind of this error.
    pub fn kind(&self) -> (k: &ErrorKind)
        ensures
            *k == self.spec_kind(),
    {
        &self.kind
    }

    /// The text that describes this error: that of its kind.
    pub fn message(&self) -> (text: String)
        ensures
            text@ == self.spec_kind().name(),
    {
        self.kind.message()
    }
}

impl From<ErrorKind> for Error {
    fn from(value: ErrorKind) -> (e: Error) {
        Error { kind: value }
    }
}

impl vstd::std_specs::convert::FromSpecImpl<ErrorKind> for Error {
    open spec fn obeys_from_spec() -> bool {
        true
    }

    open spec fn from_spec(value: ErrorKind) -> Error {
        Error::of(value)
    }
}

} // verus!
