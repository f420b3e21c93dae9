use vstd::prelude::*;
use crate::parser::base::Parser;
use crate::parser::error::Error;
use crate::parser::outcome::{consumes_forward, is_total};
use crate::parser::text::{is_suffix, trim_start, whitespace_len};

verus! {

/// `o` is an outcome of running `parser` on `i` without the whitespace at
/// its front.
pub open spec fn trimmed_yields<'a, T, P: Parser<&'a str, T>>(
    parser: P,
    i: &'a str,
    o: Result<(&'a str, T), Error>,
) -> bool {
    exists|trimmed: &'a str|
        trimmed@ == i@.skip(whitespace_len(i@) as int) && #[trigger] parser.ensures((trimmed,), o)
}

/// The parser that drops the whitespace at the front of a text and runs
/// `parser` on what follows.
pub fn trim_and<'a, T, P: Parser<&'a str, T>>(parser: P) -> (p: impl Parser<&'a str, T>)
    requires
        is_total(parser),
    ensures
        is_total(p),
        consumes_forward(parser) ==> consumes_forward(p),
        forall|i: &'a str, o: Result<(&'a str, T), Error>|
            p.ensures((i,), o) ==> trimmed_yields(parser, i, o),
{
    move |i: &'a str| -> (o: Result<(&'a str, T), Error>)
        ensures
            trimmed_yields(parser, i, o),
            consumes_forward(parser) ==> (o matches Ok((rest, _)) ==> is_suffix(rest@, i@)),
        {
            let trimmed = trim_start(i);
            let o = parser(trimmed);
            proof {
                crate::parser::text::lemma_run_len_bound(
                    i@,
                    |c: char| crate::parser::text::is_whitespace(c),
                );
                if consumes_forward(parser) {
                    if o is Ok {
                        let rest = o->Ok_0.0;
                        assert(parser.ensures((trimmed,), Ok((rest, o->Ok_0.1))));
                        crate::parser::text::lemma_suffix_transitive(rest@, trimmed@, i@);
                    }
                }
            }
            o
        }
}

/// The same parser under its other name.
pub fn space_trimer<'a, T, P: Parser<&'a str, T>>(parser: P) -> (p: impl Parser<&'a str, T>)
    requires
        is_total(parser),
    ensures
        is_total(p),
        consumes_forward(parser) ==> consumes_forward(p),
        forall|i: &'a str, o: Result<(&'a str, T), Error>|
            p.ensures((i,), o) ==> trimmed_yields(parser, i, o),
{
    trim_and(parser)
}

} // verus!
