use vstd::prelude::*;
use crate::parser::base::Parser;
use crate::parser::error::Error;
use crate::parser::outcome::{consumes_forward, is_total};
use crate::parser::text::{is_suffix, starts_with, strip_prefix};

verus! {

/// What a parser for the string `s` may hand back on the text `i`: the string
/// and the text behind it where the text begins with the string, a failure
/// otherwise.
pub open spec fn string_yields<'a>(
    s: Seq<char>,
    i: Seq<char>,
    o: Result<(&'a str, String), Error>,
) -> bool {
    if starts_with(i, s) {
        o matches Ok((rest, found)) && rest@ == i.skip(s.len() as int) && found@ == s
    } else {
        o == Err::<(&'a str, String), Error>(Error::ParseStringError)
    }
}

/// Reads the string `s` from the front of the text.
pub fn expect_string<'a>(s: &str, i: &'a str) -> (o: Result<(&'a str, String), Error>)
    ensures
        string_yields(s@, i@, o),
{
    match strip_prefix(i, s) {
        Some(rest) => Ok((rest, s.to_owned())),
        None => Err(Error::ParseStringError),
    }
}

/// The parser that takes exactly the string `s` from the front of a text and
/// fails on every text that does not begin with it.
pub fn string<'a>(s: String) -> (p: impl Parser<&'a str, String>)
    ensures
        is_total(p),
        consumes_forward(p),
        forall|i: &'a str, o: Result<(&'a str, String), Error>|
            p.ensures((i,), o) ==> string_yields(s@, i@, o),
{
    let p = move |i: &'a str| -> (o: Result<(&'a str, String), Error>)
        ensures
            string_yields(s@, i@, o),
        { expect_string(s.as_str(), i) };
    assert forall|i: &'a str, rest: &'a str, value: String| #[trigger]
        p.ensures((i,), Ok((rest, value))) implies is_suffix(rest@, i@) by {
        assert(string_yields(s@, i@, Ok((rest, value))));
    }
    p
}

} // verus!
