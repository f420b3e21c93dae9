use vstd::prelude::*;
use crate::parser::base::Parser;
use crate::parser::error::Error;
use crate::parser::outcome::{consumes_forward, is_total, outcome};
use crate::parser::text::split_first;

verus! {

/// What a parser for the character `c` hands back on the text `i`.
pub open spec fn char_spec(c: char, i: Seq<char>) -> Result<(Seq<char>, ()), Error> {
    if i.len() > 0 && i[0] == c {
        Ok((i.drop_first(), ()))
    } else {
        Err(Error::ParseCharError)
    }
}

/// Reads the character `c` from the front of the text.
pub fn expect_char<'a>(c: char, i: &'a str) -> (o: Result<(&'a str, ()), Error>)
    ensures
        outcome(o) == char_spec(c, i@),
{
    match split_first(i) {
        Some((found, rest)) => {
            if found == c {
                Ok((rest, ()))
            } else {
                Err(Error::ParseCharError)
            }
        },
        None => Err(Error::ParseCharError),
    }
}

/// The parser that takes exactly the character `c` from the front of a text
/// and fails on every text that does not begin with it.
pub fn char<'a>(c: char) -> (p: impl Parser<&'a str, ()>)
    ensures
        is_total(p),
        consumes_forward(p),
        forall|i: &'a str, o: Result<(&'a str, ()), Error>|
            p.ensures((i,), o) ==> outcome(o) == char_spec(c, i@),
{
    let p = move |i: &'a str| -> (o: Result<(&'a str, ()), Error>)
        ensures
            outcome(o) == char_spec(c, i@),
        { expect_char(c, i) };
    assert forall|i: &'a str, rest: &'a str, value: ()| #[trigger]
        p.ensures((i,), Ok((rest, value))) implies crate::parser::text::is_suffix(rest@, i@) by {
        assert(outcome(Ok::<(&'a str, ()), Error>((rest, value))) == char_spec(c, i@));
        assert(rest@ =~= i@.skip(1));
    }
    p
}

} // verus!
