use vstd::prelude::*;

verus! {

/// The parser that takes nothing: it hands the text back as it got it. It
/// serves as the second parser of a substitute that is to match when the
/// first one does not.
pub fn none<'a>(i: &'a str) -> (o: (&'a str, ()))
    ensures
        o == (i, ()),
{
    (i, ())
}

} // verus!
