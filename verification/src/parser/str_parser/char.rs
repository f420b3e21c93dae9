use vstd::prelude::*;
use crate::parser::Parser;
use crate::parser::outcome::{hands_back_suffix, is_total_pair};
use crate::parser::str_parser::error::{Error, ErrorKind};
use crate::parser::text::{is_suffix, split_first};

verus! {

/// `o` is what a parser for the character `c` hands back on `i`: the
/// character and the text behind it, or the failure and the text itself.
pub open spec fn char_yields<'a>(c: char, i: &'a str, o: (&'a str, Result<char, Error>)) -> bool {
    if i@.len() > 0 && i@[0] == c {
        o.0@ == i@.drop_first() && o.1 == Ok::<char, Error>(c)
    } else {
        o.0 == i && o.1 == Err::<char, Error>(Error::of(ErrorKind::ParseCharError))
    }
}

/// Reads the character `c` from the front of the text.
pub fn expect_char<'a>(c: char, i: &'a str) -> (o: (&'a str, Result<char, Error>))
    ensures
        char_yields(c, i, o),
        is_suffix(o.0@, i@),
{
    assert(is_suffix(i@, i@)) by {
        assert(i@.skip(0) =~= i@);
    }
    match split_first(i) {
        Some((found, rest)) => {
            if found == c {
                assert(rest@ =~= i@.skip(1));
                (rest, Ok(c))
            } else {
                (i, Err(Error::new(ErrorKind::ParseCharError)))
            }
        },
        None => (i, Err(Error::new(ErrorKind::ParseCharError))),
    }
}

/// The parser that takes exactly the character `c` from the front of a text
/// and hands it back.
pub fn char<'a>(c: char) -> (p: impl Parser<&'a str, Result<char, Error>>)
    ensures
        is_total_pair(p),
        hands_back_suffix(p),
        forall|i: &'a str, o: (&'a str, Result<char, Error>)|
            p.ensures((i,), o) ==> char_yields(c, i, o),
{
    move |i: &'a str| -> (o: (&'a str, Result<char, Error>))
        ensures
            char_yields(c, i, o),
            is_suffix(o.0@, i@),
        { expect_char(c, i) }
}

} // verus!
