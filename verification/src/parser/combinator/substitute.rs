use vstd::prelude::*;
use crate::parser::Parser;
use crate::parser::outcome::hands_back_suffix;
use crate::parser::text::{is_suffix, lemma_suffix_transitive};

verus! {

/// Which of the two parsers of a substitute a value comes from.
#[derive(Debug, PartialEq, Eq, Clone, Copy)]
pub enum SubResult<Main, Sub> {
    Main(Main),
    Sub(Sub),
}

/// `o` is an outcome of the substitute of `main` by `other` on `i`: the
/// value of `main` where it succeeds; where it fails, the value of `other`,
/// run on the text that `main` handed back; where both fail, both errors.
pub open spec fn sub_yields<I, M, ME, S, SE, P, Q>(
    main: P,
    other: Q,
    i: I,
    o: (I, Result<SubResult<M, S>, (ME, SE)>),
) -> bool where P: Parser<I, Result<M, ME>>, Q: Parser<I, Result<S, SE>> {
    exists|r1: (I, Result<M, ME>)| #[trigger]
        main.ensures((i,), r1) && match r1.1 {
            Ok(m) => o == (r1.0, Ok::<SubResult<M, S>, (ME, SE)>(SubResult::Main(m))),
            Err(e1) => exists|r2: (I, Result<S, SE>)| #[trigger]
                other.ensures((r1.0,), r2) && match r2.1 {
                    Ok(s) => o == (r2.0, Ok::<SubResult<M, S>, (ME, SE)>(SubResult::Sub(s))),
                    Err(e2) => o == (r2.0, Err::<SubResult<M, S>, (ME, SE)>((e1, e2))),
                },
        }
}

/// `o` is an outcome of the unchecked substitute of `main` by `other` on
/// `i`: the value of `main` where it succeeds; where it fails, whatever
/// `other` hands back on the text that `main` handed back.
pub open spec fn sub_uncheck_yields<I, M, ME, S, P, Q>(
    main: P,
    other: Q,
    i: I,
    o: (I, SubResult<M, S>),
) -> bool where P: Parser<I, Result<M, ME>>, Q: Parser<I, S> {
    exists|r1: (I, Result<M, ME>)| #[trigger]
        main.ensures((i,), r1) && match r1.1 {
            Ok(m) => o == (r1.0, SubResult::<M, S>::Main(m)),
            Err(e1) => o.1 is Sub && other.ensures((r1.0,), (o.0, o.1->Sub_0)),
        }
}

/// The substitute: `main`, and where it fails `other` in its place. The
/// value is marked by the parser that it comes from.
pub fn sub<I, M, ME, S, SE, P, Q>(main: P, other: Q) -> (p: impl Parser<
    I,
    Result<SubResult<M, S>, (ME, SE)>,
>) where P: Parser<I, Result<M, ME>>, Q: Parser<I, Result<S, SE>>
    requires
        forall|i: I| main.requires((i,)),
        forall|i: I| other.requires((i,)),
    ensures
        forall|i: I| p.requires((i,)),
        forall|i: I, o: (I, Result<SubResult<M, S>, (ME, SE)>)|
            p.ensures((i,), o) ==> sub_yields(main, other, i, o),
{
    move |i: I| -> (o: (I, Result<SubResult<M, S>, (ME, SE)>))
        ensures
            sub_yields(main, other, i, o),
        {
            let r1 = main(i);
            assert(main.ensures((i,), r1));
            match r1 {
                (rest, Ok(m)) => (rest, Ok(SubResult::Main(m))),
                (mid, Err(e1)) => {
                    let r2 = other(mid);
                    assert(other.ensures((mid,), r2));
                    match r2 {
                        (rest, Ok(s)) => (rest, Ok(SubResult::Sub(s))),
                        (rest, Err(e2)) => (rest, Err((e1, e2))),
                    }
                },
            }
        }
}

/// The unchecked substitute: `main`, and where it fails `other` in its
/// place, whose value is handed back whatever it is. This parser never
/// fails.
pub fn sub_uncheck<I, M, ME, S, P, Q>(main: P, other: Q) -> (p: impl Parser<
    I,
    SubResult<M, S>,
>) where P: Parser<I, Result<M, ME>>, Q: Parser<I, S>
    requires
        forall|i: I| main.requires((i,)),
        forall|i: I| other.requires((i,)),
    ensures
        forall|i: I| p.requires((i,)),
        forall|i: I, o: (I, SubResult<M, S>)|
            p.ensures((i,), o) ==> sub_uncheck_yields(main, other, i, o),
{
    move |i: I| -> (o: (I, SubResult<M, S>))
        ensures
            sub_uncheck_yields(main, other, i, o),
        {
            let r1 = main(i);
            assert(main.ensures((i,), r1));
            match r1 {
                (rest, Ok(m)) => (rest, SubResult::Main(m)),
                (mid, Err(_)) => {
                    let (rest, s) = other(mid);
                    (rest, SubResult::Sub(s))
                },
            }
        }
}

/// Where both parsers hand back a suffix of what they were given, so does
/// the substitute.
pub proof fn lemma_sub_hands_back_suffix<'a, M, ME, S, SE, P, Q>(
    main: P,
    other: Q,
    i: &'a str,
    o: (&'a str, Result<SubResult<M, S>, (ME, SE)>),
) where P: Parser<&'a str, Result<M, ME>>, Q: Parser<&'a str, Result<S, SE>>
    requires
        hands_back_suffix(main),
        hands_back_suffix(other),
        sub_yields(main, other, i, o),
    ensures
        is_suffix(o.0@, i@),
{
    let r1 = choose|r1: (&'a str, Result<M, ME>)| #[trigger]
        main.ensures((i,), r1) && match r1.1 {
            Ok(m) => o == (r1.0, Ok::<SubResult<M, S>, (ME, SE)>(SubResult::Main(m))),
            Err(e1) => exists|r2: (&'a str, Result<S, SE>)| #[trigger]
                other.ensures((r1.0,), r2) && match r2.1 {
                    Ok(s) => o == (r2.0, Ok::<SubResult<M, S>, (ME, SE)>(SubResult::Sub(s))),
                    Err(e2) => o == (r2.0, Err::<SubResult<M, S>, (ME, SE)>((e1, e2))),
                },
        };
    assert(main.ensures((i,), (r1.0, r1.1)));
    if r1.1 is Err {
        let e1 = r1.1->Err_0;
        let r2 = choose|r2: (&'a str, Result<S, SE>)| #[trigger]
            other.ensures((r1.0,), r2) && match r2.1 {
                Ok(s) => o == (r2.0, Ok::<SubResult<M, S>, (ME, SE)>(SubResult::Sub(s))),
                Err(e2) => o == (r2.0, Err::<SubResult<M, S>, (ME, SE)>((e1, e2))),
            };
        assert(other.ensures((r1.0,), (r2.0, r2.1)));
        lemma_suffix_transitive(r2.0@, r1.0@, i@);
    }
}

/// Where both parsers hand back a suffix of what they were given, so does
/// the unchecked substitute.
pub proof fn lemma_sub_uncheck_hands_back_suffix<'a, M, ME, S, P, Q>(
    main: P,
    other: Q,
    i: &'a str,
    o: (&'a str, SubResult<M, S>),
) where P: Parser<&'a str, Result<M, ME>>, Q: Parser<&'a str, S>
    requires
        hands_back_suffix(main),
        hands_back_suffix(other),
        sub_uncheck_yields(main, other, i, o),
    ensures
        is_suffix(o.0@, i@),
{
    let r1 = choose|r1: (&'a str, Result<M, ME>)| #[trigger]
        main.ensures((i,), r1) && match r1.1 {
            Ok(m) => o == (r1.0, SubResult::<M, S>::Main(m)),
            Err(e1) => o.1 is Sub && other.ensures((r1.0,), (o.0, o.1->Sub_0)),
        };
    assert(main.ensures((i,), (r1.0, r1.1)));
    if r1.1 is Err {
        lemma_suffix_transitive(o.0@, r1.0@, i@);
    }
}

} // verus!
