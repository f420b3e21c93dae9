use vstd::prelude::*;
use crate::parser::base::Parser;
use crate::parser::error::Error;
use crate::parser::outcome::consumes_forward;
use crate::parser::text::is_suffix;

verus! {

/// Which of two alternatives a value comes from.
#[derive(Debug, PartialEq, Eq, Clone, Copy)]
pub enum OrResult<A, B> {
    A(A),
    B(B),
}

/// `o` is an outcome of the alternative of `first` and `second` on `i`: what
/// `first` hands back where it succeeds; where it fails, what `second` hands
/// back on the same text `i`; where both fail, both errors.
pub open spec fn alternative_yields<I, O, P, Q>(
    first: P,
    second: Q,
    i: I,
    o: Result<(I, O), Error>,
) -> bool where
    P: Parser<I, O>,
    Q: Parser<I, O>,
 {
    exists|r1: Result<(I, O), Error>| #[trigger]
        first.ensures((i,), r1) && match r1 {
            Ok(found) => o == Ok::<(I, O), Error>(found),
            Err(e1) => exists|r2: Result<(I, O), Error>| #[trigger]
                second.ensures((i,), r2) && match r2 {
                    Ok(found) => o == Ok::<(I, O), Error>(found),
                    Err(e2) => o == Err::<(I, O), Error>(Error::alternative(e1, e2)),
                },
        }
}

/// `o` is an outcome of the tagged alternative of `first` and `second` on
/// `i`: as for the alternative, with the value marked by the branch it comes
/// from.
pub open spec fn tagged_alternative_yields<I, A, B, P, Q>(
    first: P,
    second: Q,
    i: I,
    o: Result<(I, OrResult<A, B>), Error>,
) -> bool where P: Parser<I, A>, Q: Parser<I, B> {
    exists|r1: Result<(I, A), Error>| #[trigger]
        first.ensures((i,), r1) && match r1 {
            Ok((rest, a)) => o == Ok::<(I, OrResult<A, B>), Error>((rest, OrResult::A(a))),
            Err(e1) => exists|r2: Result<(I, B), Error>| #[trigger]
                second.ensures((i,), r2) && match r2 {
                    Ok((rest, b)) => o == Ok::<(I, OrResult<A, B>), Error>((rest, OrResult::B(b))),
                    Err(e2) => o == Err::<(I, OrResult<A, B>), Error>(Error::alternative(e1, e2)),
                },
        }
}

/// The alternative of two parsers: `first`, and where it fails `second`, on
/// the text as it was before `first` ran.
pub fn or<I: Copy, O, P, Q>(first: P, second: Q) -> (p: impl Parser<I, O>) where
    P: Parser<I, O>,
    Q: Parser<I, O>,

    requires
        forall|i: I| first.requires((i,)),
        forall|i: I| second.requires((i,)),
    ensures
        forall|i: I| p.requires((i,)),
        forall|i: I, o: Result<(I, O), Error>|
            p.ensures((i,), o) ==> alternative_yields(first, second, i, o),
{
    move |i: I| -> (o: Result<(I, O), Error>)
        ensures
            alternative_yields(first, second, i, o),
        {
            match first(i) {
                Ok(found) => Ok(found),
                Err(e1) => match second(i) {
                    Ok(found) => Ok(found),
                    Err(e2) => Err(Error::in_alternative(e1, e2)),
                },
            }
        }
}

/// The alternative of two parsers of different values: the value is marked
/// by the branch that it comes from.
pub fn or_ab<I: Copy, A, B, P, Q>(first: P, second: Q) -> (p: impl Parser<I, OrResult<A, B>>) where
    P: Parser<I, A>,
    Q: Parser<I, B>,

    requires
        forall|i: I| first.requires((i,)),
        forall|i: I| second.requires((i,)),
    ensures
        forall|i: I| p.requires((i,)),
        forall|i: I, o: Result<(I, OrResult<A, B>), Error>|
            p.ensures((i,), o) ==> tagged_alternative_yields(first, second, i, o),
{
    move |i: I| -> (o: Result<(I, OrResult<A, B>), Error>)
        ensures
            tagged_alternative_yields(first, second, i, o),
        {
            match first(i) {
                Ok((rest, a)) => Ok((rest, OrResult::A(a))),
                Err(e1) => match second(i) {
                    Ok((rest, b)) => Ok((rest, OrResult::B(b))),
                    Err(e2) => Err(Error::in_alternative(e1, e2)),
                },
            }
        }
}

/// An alternative backtracks. Where `first` fails on `i`, what the
/// alternative hands back is what `second` hands back on `i` itself, the
/// text as it was before `first` ran: nothing that `first` consumed shows.
/// And where `second` fails too, the failure carries both errors.
pub proof fn lemma_alternative_backtracks<I, O, P, Q>(
    first: P,
    second: Q,
    i: I,
    o: Result<(I, O), Error>,
) where P: Parser<I, O>, Q: Parser<I, O>
    requires
        forall|r1: Result<(I, O), Error>| first.ensures((i,), r1) ==> r1 is Err,
        alternative_yields(first, second, i, o),
    ensures
        o is Ok ==> second.ensures((i,), o),
        o is Err ==> exists|e1: Error, e2: Error|
            #![trigger first.ensures((i,), Err(e1)), second.ensures((i,), Err(e2))]
            first.ensures((i,), Err(e1)) && second.ensures((i,), Err(e2)) && o->Err_0
                == Error::alternative(e1, e2),
{
    let r1 = choose|r1: Result<(I, O), Error>| #[trigger]
        first.ensures((i,), r1) && match r1 {
            Ok(found) => o == Ok::<(I, O), Error>(found),
            Err(e1) => exists|r2: Result<(I, O), Error>| #[trigger]
                second.ensures((i,), r2) && match r2 {
                    Ok(found) => o == Ok::<(I, O), Error>(found),
                    Err(e2) => o == Err::<(I, O), Error>(Error::alternative(e1, e2)),
                },
        };
    let e1 = r1->Err_0;
    let r2 = choose|r2: Result<(I, O), Error>| #[trigger]
        second.ensures((i,), r2) && match r2 {
            Ok(found) => o == Ok::<(I, O), Error>(found),
            Err(e2) => o == Err::<(I, O), Error>(Error::alternative(e1, e2)),
        };
    if o is Err {
        let e2 = r2->Err_0;
        assert(first.ensures((i,), Err(e1)) && second.ensures((i,), Err(e2)));
    }
}

/// An alternative of parsers that consume forward consumes forward.
pub proof fn lemma_alternative_consumes_forward<'a, O, P, Q>(
    first: P,
    second: Q,
    i: &'a str,
    rest: &'a str,
    value: O,
) where P: Parser<&'a str, O>, Q: Parser<&'a str, O>
    requires
        consumes_forward(first),
        consumes_forward(second),
        alternative_yields(first, second, i, Ok((rest, value))),
    ensures
        is_suffix(rest@, i@),
{
    let o = Ok::<(&'a str, O), Error>((rest, value));
    let r1 = choose|r1: Result<(&'a str, O), Error>| #[trigger]
        first.ensures((i,), r1) && match r1 {
            Ok(found) => o == Ok::<(&'a str, O), Error>(found),
            Err(e1) => exists|r2: Result<(&'a str, O), Error>| #[trigger]
                second.ensures((i,), r2) && match r2 {
                    Ok(found) => o == Ok::<(&'a str, O), Error>(found),
                    Err(e2) => o == Err::<(&'a str, O), Error>(Error::alternative(e1, e2)),
                },
        };
    if r1 is Err {
        let e1 = r1->Err_0;
        let r2 = choose|r2: Result<(&'a str, O), Error>| #[trigger]
            second.ensures((i,), r2) && match r2 {
                Ok(found) => o == Ok::<(&'a str, O), Error>(found),
                Err(e2) => o == Err::<(&'a str, O), Error>(Error::alternative(e1, e2)),
            };
        assert(r2 == o);
    } else {
        assert(r1 == o);
    }
}

/// A tagged alternative backtracks as an alternative does: where `first`
/// fails on `i`, the value is one that `second` hands back on `i` itself,
/// marked as coming from the second branch.
pub proof fn lemma_tagged_alternative_backtracks<I, A, B, P, Q>(
    first: P,
    second: Q,
    i: I,
    rest: I,
    value: OrResult<A, B>,
) where P: Parser<I, A>, Q: Parser<I, B>
    requires
        forall|r1: Result<(I, A), Error>| first.ensures((i,), r1) ==> r1 is Err,
        tagged_alternative_yields(first, second, i, Ok((rest, value))),
    ensures
        value is B,
        second.ensures((i,), Ok((rest, value->B_0))),
{
    let o = Ok::<(I, OrResult<A, B>), Error>((rest, value));
    let r1 = choose|r1: Result<(I, A), Error>| #[trigger]
        first.ensures((i,), r1) && match r1 {
            Ok((rest, a)) => o == Ok::<(I, OrResult<A, B>), Error>((rest, OrResult::A(a))),
            Err(e1) => exists|r2: Result<(I, B), Error>| #[trigger]
                second.ensures((i,), r2) && match r2 {
                    Ok((rest, b)) => o == Ok::<(I, OrResult<A, B>), Error>((rest, OrResult::B(b))),
                    Err(e2) => o == Err::<(I, OrResult<A, B>), Error>(Error::alternative(e1, e2)),
                },
        };
    let e1 = r1->Err_0;
    let r2 = choose|r2: Result<(I, B), Error>| #[trigger]
        second.ensures((i,), r2) && match r2 {
            Ok((rest, b)) => o == Ok::<(I, OrResult<A, B>), Error>((rest, OrResult::B(b))),
            Err(e2) => o == Err::<(I, OrResult<A, B>), Error>(Error::alternative(e1, e2)),
        };
    assert(r2 == Ok::<(I, B), Error>((rest, value->B_0)));
}

/// A tagged alternative of parsers that consume forward consumes forward.
pub proof fn lemma_tagged_alternative_consumes_forward<'a, A, B, P, Q>(
    first: P,
    second: Q,
    i: &'a str,
    rest: &'a str,
    value: OrResult<A, B>,
) where P: Parser<&'a str, A>, Q: Parser<&'a str, B>
    requires
        consumes_forward(first),
        consumes_forward(second),
        tagged_alternative_yields(first, second, i, Ok((rest, value))),
    ensures
        is_suffix(rest@, i@),
{
    let o = Ok::<(&'a str, OrResult<A, B>), Error>((rest, value));
    let r1 = choose|r1: Result<(&'a str, A), Error>| #[trigger]
        first.ensures((i,), r1) && match r1 {
            Ok((rest, a)) => o == Ok::<(&'a str, OrResult<A, B>), Error>((rest, OrResult::A(a))),
            Err(e1) => exists|r2: Result<(&'a str, B), Error>| #[trigger]
                second.ensures((i,), r2) && match r2 {
                    Ok((rest, b)) => o == Ok::<(&'a str, OrResult<A, B>), Error>(
                        (rest, OrResult::B(b)),
                    ),
                    Err(e2) => o == Err::<(&'a str, OrResult<A, B>), Error>(
                        Error::alternative(e1, e2),
                    ),
                },
        };
    if r1 is Err {
        let e1 = r1->Err_0;
        let r2 = choose|r2: Result<(&'a str, B), Error>| #[trigger]
            second.ensures((i,), r2) && match r2 {
                Ok((rest, b)) => o == Ok::<(&'a str, OrResult<A, B>), Error>(
                    (rest, OrResult::B(b)),
                ),
                Err(e2) => o == Err::<(&'a str, OrResult<A, B>), Error>(
                    Error::alternative(e1, e2),
                ),
            };
        assert(r2 == Ok::<(&'a str, B), Error>((rest, r2->Ok_0.1)));
    } else {
        assert(r1 == Ok::<(&'a str, A), Error>((rest, r1->Ok_0.1)));
    }
}

} // verus!
