use vstd::prelude::*;
use crate::parser::base::Parser;
use crate::parser::error::Error;
use crate::parser::outcome::consumes_forward;
use crate::parser::text::is_suffix;

verus! {

/// `o` is an outcome of running `parser` on `i` and applying `f` to the
/// value: a failure and the text left over pass through unchanged.
pub open spec fn map_yields<I, A, T, P, G>(parser: P, f: G, i: I, o: Result<(I, T), Error>) -> bool where
    P: Parser<I, A>,
    G: Fn(A) -> T,
 {
    exists|r: Result<(I, A), Error>| #[trigger]
        parser.ensures((i,), r) && match r {
            Err(e) => o == Err::<(I, T), Error>(e),
            Ok((rest, a)) => o matches Ok((left, t)) && left == rest && f.ensures((a,), t),
        }
}

/// The parser that runs `parser` and applies `f` to the value it hands back.
pub fn map<I, A, T, P, G>(parser: P, f: G) -> (p: impl Parser<I, T>) where
    P: Parser<I, A>,
    G: Fn(A) -> T,

    requires
        forall|i: I| parser.requires((i,)),
        forall|a: A| f.requires((a,)),
    ensures
        forall|i: I| p.requires((i,)),
        forall|i: I, o: Result<(I, T), Error>| p.ensures((i,), o) ==> map_yields(parser, f, i, o),
{
    move |i: I| -> (o: Result<(I, T), Error>)
        ensures
            map_yields(parser, f, i, o),
        {
            match parser(i) {
                Ok((rest, a)) => Ok((rest, f(a))),
                Err(e) => Err(e),
            }
        }
}

/// Applying a function to the value changes nothing of what is consumed.
pub proof fn lemma_map_consumes_forward<'a, A, T, P, G>(
    parser: P,
    f: G,
    i: &'a str,
    rest: &'a str,
    value: T,
) where P: Parser<&'a str, A>, G: Fn(A) -> T
    requires
        consumes_forward(parser),
        map_yields(parser, f, i, Ok((rest, value))),
    ensures
        is_suffix(rest@, i@),
{
    let o = Ok::<(&'a str, T), Error>((rest, value));
    let r = choose|r: Result<(&'a str, A), Error>| #[trigger]
        parser.ensures((i,), r) && match r {
            Err(e) => o == Err::<(&'a str, T), Error>(e),
            Ok((rest, a)) => o matches Ok((left, t)) && left == rest && f.ensures((a,), t),
        };
    assert(r == Ok::<(&'a str, A), Error>((rest, r->Ok_0.1)));
}

} // verus!
