use vstd::prelude::*;
use crate::parser::base::Parser;
use crate::parser::error::Error;
use crate::parser::outcome::consumes_forward;
use crate::parser::text::{is_suffix, lemma_suffix_transitive};

verus! {

/// `o` is an outcome of running `first` on `i` and then `second` on what
/// `first` left over: both values where both succeed, else the error of the
/// parser that failed, as it is.
pub open spec fn join_yields<I, A, B, P, Q>(
    first: P,
    second: Q,
    i: I,
    o: Result<(I, (A, B)), Error>,
) -> bool where P: Parser<I, A>, Q: Parser<I, B> {
    exists|r1: Result<(I, A), Error>| #[trigger]
        first.ensures((i,), r1) && match r1 {
            Err(e) => o == Err::<(I, (A, B)), Error>(e),
            Ok((mid, a)) => exists|r2: Result<(I, B), Error>| #[trigger]
                second.ensures((mid,), r2) && match r2 {
                    Err(e) => o == Err::<(I, (A, B)), Error>(e),
                    Ok((rest, b)) => o == Ok::<(I, (A, B)), Error>((rest, (a, b))),
                },
        }
}

/// The sequence of two parsers that reports a failure as the failing parser
/// reported it.
pub fn join<I, A, B, P, Q>(first: P, second: Q) -> (p: impl Parser<I, (A, B)>) where
    P: Parser<I, A>,
    Q: Parser<I, B>,

    requires
        forall|i: I| first.requires((i,)),
        forall|i: I| second.requires((i,)),
    ensures
        forall|i: I| p.requires((i,)),
        forall|i: I, o: Result<(I, (A, B)), Error>|
            p.ensures((i,), o) ==> join_yields(first, second, i, o),
{
    move |i: I| -> (o: Result<(I, (A, B)), Error>)
        ensures
            join_yields(first, second, i, o),
        {
            match first(i) {
                Ok((mid, a)) => match second(mid) {
                    Ok((rest, b)) => Ok((rest, (a, b))),
                    Err(e) => Err(e),
                },
                Err(e) => Err(e),
            }
        }
}

/// A joined pair of parsers that consume forward consumes forward.
pub proof fn lemma_join_consumes_forward<'a, A, B, P, Q>(
    first: P,
    second: Q,
    i: &'a str,
    rest: &'a str,
    value: (A, B),
) where P: Parser<&'a str, A>, Q: Parser<&'a str, B>
    requires
        consumes_forward(first),
        consumes_forward(second),
        join_yields(first, second, i, Ok((rest, value))),
    ensures
        is_suffix(rest@, i@),
{
    let o = Ok::<(&'a str, (A, B)), Error>((rest, value));
    let r1 = choose|r1: Result<(&'a str, A), Error>| #[trigger]
        first.ensures((i,), r1) && match r1 {
            Err(e) => o == Err::<(&'a str, (A, B)), Error>(e),
            Ok((mid, a)) => exists|r2: Result<(&'a str, B), Error>| #[trigger]
                second.ensures((mid,), r2) && match r2 {
                    Err(e) => o == Err::<(&'a str, (A, B)), Error>(e),
                    Ok((rest, b)) => o == Ok::<(&'a str, (A, B)), Error>((rest, (a, b))),
                },
        };
    let mid = r1->Ok_0.0;
    let a = r1->Ok_0.1;
    assert(r1 == Ok::<(&'a str, A), Error>((mid, a)));
    let r2 = choose|r2: Result<(&'a str, B), Error>| #[trigger]
        second.ensures((mid,), r2) && match r2 {
            Err(e) => o == Err::<(&'a str, (A, B)), Error>(e),
            Ok((rest, b)) => o == Ok::<(&'a str, (A, B)), Error>((rest, (a, b))),
        };
    assert(r2 == Ok::<(&'a str, B), Error>((rest, value.1)));
    lemma_suffix_transitive(rest@, mid@, i@);
}

} // verus!
