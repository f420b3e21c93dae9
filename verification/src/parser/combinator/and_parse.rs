use vstd::prelude::*;
use crate::parser::base::Parser;
use crate::parser::error::Error;
use crate::parser::outcome::consumes_forward;
use crate::parser::text::{is_suffix, lemma_suffix_transitive};

verus! {

/// `o` is an outcome of running `first` on `i` and then `second` on what
/// `first` left over: both values where both succeed, else the error of the
/// parser that failed, wrapped as the failure of a sequence.
pub open spec fn sequence_yields<I, A, B, P, Q>(
    first: P,
    second: Q,
    i: I,
    o: Result<(I, (A, B)), Error>,
) -> bool where P: Parser<I, A>, Q: Parser<I, B> {
    exists|r1: Result<(I, A), Error>| #[trigger]
        first.ensures((i,), r1) && match r1 {
            Err(e) => o == Err::<(I, (A, B)), Error>(Error::sequence(e)),
            Ok((mid, a)) => exists|r2: Result<(I, B), Error>| #[trigger]
                second.ensures((mid,), r2) && match r2 {
                    Err(e) => o == Err::<(I, (A, B)), Error>(Error::sequence(e)),
                    Ok((rest, b)) => o == Ok::<(I, (A, B)), Error>((rest, (a, b))),
                },
        }
}

/// `o` is an outcome of the sequence that keeps the first value only.
pub open spec fn sequence_first_yields<I, A, B, P, Q>(
    first: P,
    second: Q,
    i: I,
    o: Result<(I, A), Error>,
) -> bool where P: Parser<I, A>, Q: Parser<I, B> {
    exists|both: Result<(I, (A, B)), Error>| #[trigger]
        sequence_yields(first, second, i, both) && match both {
            Err(e) => o == Err::<(I, A), Error>(e),
            Ok((rest, (a, b))) => o == Ok::<(I, A), Error>((rest, a)),
        }
}

/// `o` is an outcome of the sequence that keeps the second value only.
pub open spec fn sequence_second_yields<I, A, B, P, Q>(
    first: P,
    second: Q,
    i: I,
    o: Result<(I, B), Error>,
) -> bool where P: Parser<I, A>, Q: Parser<I, B> {
    exists|both: Result<(I, (A, B)), Error>| #[trigger]
        sequence_yields(first, second, i, both) && match both {
            Err(e) => o == Err::<(I, B), Error>(e),
            Ok((rest, (a, b))) => o == Ok::<(I, B), Error>((rest, b)),
        }
}

/// The sequence of two parsers: `first`, then `second` on what `first` left
/// over. It hands back both values.
pub fn and<I, A, B, P, Q>(first: P, second: Q) -> (p: impl Parser<I, (A, B)>) where
    P: Parser<I, A>,
    Q: Parser<I, B>,

    requires
        forall|i: I| first.requires((i,)),
        forall|i: I| second.requires((i,)),
    ensures
        forall|i: I| p.requires((i,)),
        forall|i: I, o: Result<(I, (A, B)), Error>|
            p.ensures((i,), o) ==> sequence_yields(first, second, i, o),
{
    move |i: I| -> (o: Result<(I, (A, B)), Error>)
        ensures
            sequence_yields(first, second, i, o),
        {
            match first(i) {
                Ok((mid, a)) => match second(mid) {
                    Ok((rest, b)) => Ok((rest, (a, b))),
                    Err(e) => Err(Error::in_sequence(e)),
                },
                Err(e) => Err(Error::in_sequence(e)),
            }
        }
}

/// The sequence of two parsers that hands back the value of the first.
pub fn and_a<I, A, B, P, Q>(first: P, second: Q) -> (p: impl Parser<I, A>) where
    P: Parser<I, A>,
    Q: Parser<I, B>,

    requires
        forall|i: I| first.requires((i,)),
        forall|i: I| second.requires((i,)),
    ensures
        forall|i: I| p.requires((i,)),
        forall|i: I, o: Result<(I, A), Error>|
            p.ensures((i,), o) ==> sequence_first_yields(first, second, i, o),
{
    move |i: I| -> (o: Result<(I, A), Error>)
        ensures
            sequence_first_yields(first, second, i, o),
        {
            match first(i) {
                Ok((mid, a)) => match second(mid) {
                    Ok((rest, b)) => {
                        assert(sequence_yields(first, second, i, Ok((rest, (a, b)))));
                        Ok((rest, a))
                    },
                    Err(e) => {
                        assert(sequence_yields::<I, A, B, P, Q>(
                            first,
                            second,
                            i,
                            Err(Error::sequence(e)),
                        ));
                        Err(Error::in_sequence(e))
                    },
                },
                Err(e) => {
                    assert(sequence_yields::<I, A, B, P, Q>(
                        first,
                        second,
                        i,
                        Err(Error::sequence(e)),
                    ));
                    Err(Error::in_sequence(e))
                },
            }
        }
}

/// The sequence of two parsers that hands back the value of the second.
pub fn and_b<I, A, B, P, Q>(first: P, second: Q) -> (p: impl Parser<I, B>) where
    P: Parser<I, A>,
    Q: Parser<I, B>,

    requires
        forall|i: I| first.requires((i,)),
        forall|i: I| second.requires((i,)),
    ensures
        forall|i: I| p.requires((i,)),
        forall|i: I, o: Result<(I, B), Error>|
            p.ensures((i,), o) ==> sequence_second_yields(first, second, i, o),
{
    move |i: I| -> (o: Result<(I, B), Error>)
        ensures
            sequence_second_yields(first, second, i, o),
        {
            match first(i) {
                Ok((mid, a)) => match second(mid) {
                    Ok((rest, b)) => {
                        assert(sequence_yields(first, second, i, Ok((rest, (a, b)))));
                        Ok((rest, b))
                    },
                    Err(e) => {
                        assert(sequence_yields::<I, A, B, P, Q>(
                            first,
                            second,
                            i,
                            Err(Error::sequence(e)),
                        ));
                        Err(Error::in_sequence(e))
                    },
                },
                Err(e) => {
                    assert(sequence_yields::<I, A, B, P, Q>(
                        first,
                        second,
                        i,
                        Err(Error::sequence(e)),
                    ));
                    Err(Error::in_sequence(e))
                },
            }
        }
}

/// A sequence of parsers that consume forward consumes forward: what it
/// leaves over is a suffix of the text it was given.
pub proof fn lemma_sequence_consumes_forward<'a, A, B, P, Q>(
    first: P,
    second: Q,
    i: &'a str,
    rest: &'a str,
    value: (A, B),
) where P: Parser<&'a str, A>, Q: Parser<&'a str, B>
    requires
        consumes_forward(first),
        consumes_forward(second),
        sequence_yields(first, second, i, Ok((rest, value))),
    ensures
        is_suffix(rest@, i@),
{
    let o = Ok::<(&'a str, (A, B)), Error>((rest, value));
    let r1 = choose|r1: Result<(&'a str, A), Error>| #[trigger]
        first.ensures((i,), r1) && match r1 {
            Err(e) => o == Err::<(&'a str, (A, B)), Error>(Error::sequence(e)),
            Ok((mid, a)) => exists|r2: Result<(&'a str, B), Error>| #[trigger]
                second.ensures((mid,), r2) && match r2 {
                    Err(e) => o == Err::<(&'a str, (A, B)), Error>(Error::sequence(e)),
                    Ok((rest, b)) => o == Ok::<(&'a str, (A, B)), Error>((rest, (a, b))),
                },
        };
    let mid = r1->Ok_0.0;
    let a = r1->Ok_0.1;
    assert(r1 == Ok::<(&'a str, A), Error>((mid, a)));
    let r2 = choose|r2: Result<(&'a str, B), Error>| #[trigger]
        second.ensures((mid,), r2) && match r2 {
            Err(e) => o == Err::<(&'a str, (A, B)), Error>(Error::sequence(e)),
            Ok((rest, b)) => o == Ok::<(&'a str, (A, B)), Error>((rest, (a, b))),
        };
    assert(r2 == Ok::<(&'a str, B), Error>((rest, value.1)));
    lemma_suffix_transitive(rest@, mid@, i@);
}

/// The sequence that keeps the first value consumes forward where its
/// parsers do.
pub proof fn lemma_sequence_first_consumes_forward<'a, A, B, P, Q>(
    first: P,
    second: Q,
    i: &'a str,
    rest: &'a str,
    value: A,
) where P: Parser<&'a str, A>, Q: Parser<&'a str, B>
    requires
        consumes_forward(first),
        consumes_forward(second),
        sequence_first_yields(first, second, i, Ok((rest, value))),
    ensures
        is_suffix(rest@, i@),
{
    let o = Ok::<(&'a str, A), Error>((rest, value));
    let both = choose|both: Result<(&'a str, (A, B)), Error>| #[trigger]
        sequence_yields(first, second, i, both) && match both {
            Err(e) => o == Err::<(&'a str, A), Error>(e),
            Ok((rest, (a, b))) => o == Ok::<(&'a str, A), Error>((rest, a)),
        };
    assert(both == Ok::<(&'a str, (A, B)), Error>((rest, both->Ok_0.1)));
    lemma_sequence_consumes_forward(first, second, i, rest, both->Ok_0.1);
}

/// The sequence that keeps the second value consumes forward where its
/// parsers do.
pub proof fn lemma_sequence_second_consumes_forward<'a, A, B, P, Q>(
    first: P,
    second: Q,
    i: &'a str,
    rest: &'a str,
    value: B,
) where P: Parser<&'a str, A>, Q: Parser<&'a str, B>
    requires
        consumes_forward(first),
        consumes_forward(second),
        sequence_second_yields(first, second, i, Ok((rest, value))),
    ensures
        is_suffix(rest@, i@),
{
    let o = Ok::<(&'a str, B), Error>((rest, value));
    let both = choose|both: Result<(&'a str, (A, B)), Error>| #[trigger]
        sequence_yields(first, second, i, both) && match both {
            Err(e) => o == Err::<(&'a str, B), Error>(e),
            Ok((rest, (a, b))) => o == Ok::<(&'a str, B), Error>((rest, b)),
        };
    assert(both == Ok::<(&'a str, (A, B)), Error>((rest, both->Ok_0.1)));
    lemma_sequence_consumes_forward(first, second, i, rest, both->Ok_0.1);
}

} // verus!
