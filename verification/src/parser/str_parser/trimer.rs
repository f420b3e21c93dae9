use vstd::prelude::*;
use crate::parser::text::{is_suffix, trim_start, trimmed};

verus! {

/// The parser that takes all the whitespace at the front of a text.
pub fn trimer<'a>(i: &'a str) -> (o: (&'a str, ()))
    ensures
        o.0@ == trimmed(i@),
        is_suffix(o.0@, i@),
{
    (trim_start(i), ())
}

} // verus!
