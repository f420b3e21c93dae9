use vstd::prelude::*;
use crate::parser::error::Error;
use crate::parser::outcome::outcome;
use crate::parser::text::{is_suffix, trim_start, whitespace_len};

verus! {

/// The parser that takes all the whitespace at the front of a text. It never
/// fails: where the text begins with no whitespace it takes nothing.
pub fn trimer<'a>(i: &'a str) -> (o: Result<(&'a str, ()), Error>)
    ensures
        outcome(o) == Ok::<(Seq<char>, ()), Error>((i@.skip(whitespace_len(i@) as int), ())),
        o matches Ok((rest, _)) && is_suffix(rest@, i@),
{
    proof {
        crate::parser::text::lemma_run_len_bound(
            i@,
            |c: char| crate::parser::text::is_whitespace(c),
        );
    }
    Ok((trim_start(i), ()))
}

} // verus!
