use vstd::prelude::*;
use super::error::Error;
use super::text::is_suffix;

verus! {

/// What a parser hands back, with the text that it leaves over taken by its
/// characters.
pub open spec fn outcome<'a, T>(o: Result<(&'a str, T), Error>) -> Result<(Seq<char>, T), Error> {
    match o {
        Ok((rest, value)) => Ok((rest@, value)),
        Err(e) => Err(e),
    }
}

/// The parser can be run on every text.
pub open spec fn is_total<'a, T, P: crate::parser::base::Parser<&'a str, T>>(p: P) -> bool {
    forall|i: &'a str| p.requires((i,))
}

/// Whenever the parser succeeds, the text that it leaves over is a suffix of
/// the text it was given.
pub open spec fn consumes_forward<'a, T, P: crate::parser::base::Parser<&'a str, T>>(
    p: P,
) -> bool {
    forall|i: &'a str, rest: &'a str, value: T| #[trigger]
        p.ensures((i,), Ok((rest, value))) ==> is_suffix(rest@, i@)
}

/// The parser, of the form that always hands the text back, can be run on
/// every text.
pub open spec fn is_total_pair<'a, R, P: crate::parser::Parser<&'a str, R>>(p: P) -> bool {
    forall|i: &'a str| p.requires((i,))
}

/// The text that the parser hands back is a suffix of the text it was given.
pub open spec fn hands_back_suffix<'a, R, P: crate::parser::Parser<&'a str, R>>(p: P) -> bool {
    forall|i: &'a str, rest: &'a str, value: R| #[trigger]
        p.ensures((i,), (rest, value)) ==> is_suffix(rest@, i@)
}

} // verus!
