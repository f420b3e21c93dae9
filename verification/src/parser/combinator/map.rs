use vstd::prelude::*;
use crate::parser::Parser;
use crate::parser::outcome::hands_back_suffix;
use crate::parser::text::is_suffix;

verus! {

/// `o` is an outcome of running `parser` on `i` and applying `f` to its
/// value: the text is handed back as `parser` handed it back.
pub open spec fn map_yields<I, A, T, P, G>(parser: P, f: G, i: I, o: (I, T)) -> bool where
    P: Parser<I, A>,
    G: Fn(A) -> T,
 {
    exists|r: (I, A)| #[trigger] parser.ensures((i,), r) && o.0 == r.0 && f.ensures((r.1,), o.1)
}

/// The parser that runs `parser` and applies `f` to the value it hands back,
/// a failure included.
pub fn map<I, A, T, P, G>(parser: P, f: G) -> (p: impl Parser<I, T>) where
    P: Parser<I, A>,
    G: Fn(A) -> T,

    requires
        forall|i: I| parser.requires((i,)),
        forall|a: A| f.requires((a,)),
    ensures
        forall|i: I| p.requires((i,)),
        forall|i: I, o: (I, T)| p.ensures((i,), o) ==> map_yields(parser, f, i, o),
{
    move |i: I| -> (o: (I, T))
        ensures
            map_yields(parser, f, i, o),
        {
            let r = parser(i);
            assert(parser.ensures((i,), r));
            let (rest, a) = r;
            let t = f(a);
            (rest, t)
        }
}

/// Applying a function to the value changes nothing of the text handed back.
pub proof fn lemma_map_hands_back_suffix<'a, A, T, P, G>(
    parser: P,
    f: G,
    i: &'a str,
    o: (&'a str, T),
) where
    P: Parser<&'a str, A>,
    G: Fn(A) -> T,

    requires
        hands_back_suffix(parser),
        map_yields(parser, f, i, o),
    ensures
        is_suffix(o.0@, i@),
{
    let r = choose|r: (&'a str, A)| #[trigger]
        parser.ensures((i,), r) && o.0 == r.0 && f.ensures((r.1,), o.1);
    assert(parser.ensures((i,), (r.0, r.1)));
}

} // verus!
