use vstd::prelude::*;
use crate::parser::error::Error;

verus! {

/// The parser that takes nothing and always succeeds: it hands the text back
/// as it got it. It serves as the branch of an alternative that matches when
/// nothing else does.
pub fn none<'a>(i: &'a str) -> (o: Result<(&'a str, ()), Error>)
    ensures
        o == Ok::<(&'a str, ()), Error>((i, ())),
{
    Ok((i, ()))
}

} // verus!
