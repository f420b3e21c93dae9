use vstd::prelude::*;
use crate::parser::Parser;
use crate::parser::outcome::{hands_back_suffix, is_total_pair};
use crate::parser::str_parser::error::{Error, ErrorKind};
use crate::parser::text::{is_suffix, starts_with, strip_prefix};

verus! {

/// `o` is what a parser for the string `s` hands back on `i`: the string and
/// the text behind it, or the failure and the text itself.
pub open spec fn string_yields<'a>(
    s: Seq<char>,
    i: &'a str,
    o: (&'a str, Result<String, Error>),
) -> bool {
    if starts_with(i@, s) {
        o.1 matches Ok(found) && found@ == s && o.0@ == i@.skip(s.len() as int)
    } else {
        o.0 == i && o.1 == Err::<String, Error>(Error::of(ErrorKind::ParseStringError))
    }
}

/// Reads the string `s` from the front of the text.
pub fn expect_string<'a>(s: &str, i: &'a str) -> (o: (&'a str, Result<String, Error>))
    ensures
        string_yields(s@, i, o),
        is_suffix(o.0@, i@),
{
    assert(is_suffix(i@, i@)) by {
        assert(i@.skip(0) =~= i@);
    }
    match strip_prefix(i, s) {
        Some(rest) => (rest, Ok(s.to_owned())),
        None => (i, Err(Error::new(ErrorKind::ParseStringError))),
    }
}

/// The parser that takes exactly the string `s` from the front of a text
/// and hands it back.
pub fn string<'a>(s: String) -> (p: impl Parser<&'a str, Result<String, Error>>)
    ensures
        is_total_pair(p),
        hands_back_suffix(p),
        forall|i: &'a str, o: (&'a str, Result<String, Error>)|
            p.ensures((i,), o) ==> string_yields(s@, i, o),
{
    move |i: &'a str| -> (o: (&'a str, Result<String, Error>))
        ensures
            string_yields(s@, i, o),
            is_suffix(o.0@, i@),
        { expect_string(s.as_str(), i) }
}

} // verus!
