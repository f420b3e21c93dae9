use vstd::prelude::*;
use crate::parser::Parser;
use crate::parser::outcome::hands_back_suffix;
use crate::parser::text::{is_suffix, lemma_suffix_transitive};

verus! {

/// `o` is an outcome of running `first` on `i` and then `second` on the text
/// that `first` handed back: the text that `second` hands back, and both
/// values as they are, failures included.
pub open spec fn cat_yields<I, A, B, P, Q>(first: P, second: Q, i: I, o: (I, (A, B))) -> bool where
    P: Parser<I, A>,
    Q: Parser<I, B>,
 {
    exists|r1: (I, A), r2: (I, B)|
        #![trigger first.ensures((i,), r1), second.ensures((r1.0,), r2)]
        first.ensures((i,), r1) && second.ensures((r1.0,), r2) && o == (r2.0, (r1.1, r2.1))
}

/// `o` is an outcome of the same run, keeping the first value only.
pub open spec fn cat_a_yields<I, A, B, P, Q>(first: P, second: Q, i: I, o: (I, A)) -> bool where
    P: Parser<I, A>,
    Q: Parser<I, B>,
 {
    exists|both: (I, (A, B))| #[trigger]
        cat_yields(first, second, i, both) && o == (both.0, both.1.0)
}

/// `o` is an outcome of the same run, keeping the second value only.
pub open spec fn cat_b_yields<I, A, B, P, Q>(first: P, second: Q, i: I, o: (I, B)) -> bool where
    P: Parser<I, A>,
    Q: Parser<I, B>,
 {
    exists|both: (I, (A, B))| #[trigger]
        cat_yields(first, second, i, both) && o == (both.0, both.1.1)
}

/// Joins two parsers: `first`, then `second` on the text that `first` handed
/// back. Both values are handed back; a failure among them stops nothing.
pub fn cat<I, A, B, P, Q>(first: P, second: Q) -> (p: impl Parser<I, (A, B)>) where
    P: Parser<I, A>,
    Q: Parser<I, B>,

    requires
        forall|i: I| first.requires((i,)),
        forall|i: I| second.requires((i,)),
    ensures
        forall|i: I| p.requires((i,)),
        forall|i: I, o: (I, (A, B))| p.ensures((i,), o) ==> cat_yields(first, second, i, o),
{
    move |i: I| -> (o: (I, (A, B)))
        ensures
            cat_yields(first, second, i, o),
        {
            let r1 = first(i);
            assert(first.ensures((i,), r1));
            let (mid, a) = r1;
            let r2 = second(mid);
            assert(second.ensures((r1.0,), r2));
            let (rest, b) = r2;
            (rest, (a, b))
        }
}

/// Joins two parsers and hands back the value of the first.
pub fn cat_a<I, A, B, P, Q>(first: P, second: Q) -> (p: impl Parser<I, A>) where
    P: Parser<I, A>,
    Q: Parser<I, B>,

    requires
        forall|i: I| first.requires((i,)),
        forall|i: I| second.requires((i,)),
    ensures
        forall|i: I| p.requires((i,)),
        forall|i: I, o: (I, A)| p.ensures((i,), o) ==> cat_a_yields(first, second, i, o),
{
    move |i: I| -> (o: (I, A))
        ensures
            cat_a_yields(first, second, i, o),
        {
            let r1 = first(i);
            assert(first.ensures((i,), r1));
            let (mid, a) = r1;
            let r2 = second(mid);
            assert(second.ensures((r1.0,), r2));
            let (rest, b) = r2;
            assert(cat_yields(first, second, i, (rest, (a, b))));
            (rest, a)
        }
}

/// Joins two parsers and hands back the value of the second.
pub fn cat_b<I, A, B, P, Q>(first: P, second: Q) -> (p: impl Parser<I, B>) where
    P: Parser<I, A>,
    Q: Parser<I, B>,

    requires
        forall|i: I| first.requires((i,)),
        forall|i: I| second.requires((i,)),
    ensures
        forall|i: I| p.requires((i,)),
        forall|i: I, o: (I, B)| p.ensures((i,), o) ==> cat_b_yields(first, second, i, o),
{
    move |i: I| -> (o: (I, B))
        ensures
            cat_b_yields(first, second, i, o),
        {
            let r1 = first(i);
            assert(first.ensures((i,), r1));
            let (mid, a) = r1;
            let r2 = second(mid);
            assert(second.ensures((r1.0,), r2));
            let (rest, b) = r2;
            assert(cat_yields(first, second, i, (rest, (a, b))));
            (rest, b)
        }
}

/// Where both parsers hand back a suffix of what they were given, so do the
/// two joined.
pub proof fn lemma_cat_hands_back_suffix<'a, A, B, P, Q>(
    first: P,
    second: Q,
    i: &'a str,
    o: (&'a str, (A, B)),
) where P: Parser<&'a str, A>, Q: Parser<&'a str, B>
    requires
        hands_back_suffix(first),
        hands_back_suffix(second),
        cat_yields(first, second, i, o),
    ensures
        is_suffix(o.0@, i@),
{
    let (r1, r2) = choose|r1: (&'a str, A), r2: (&'a str, B)|
        #![trigger first.ensures((i,), r1), second.ensures((r1.0,), r2)]
        first.ensures((i,), r1) && second.ensures((r1.0,), r2) && o == (r2.0, (r1.1, r2.1));
    assert(first.ensures((i,), (r1.0, r1.1)));
    assert(second.ensures((r1.0,), (r2.0, r2.1)));
    lemma_suffix_transitive(r2.0@, r1.0@, i@);
}

/// The same for the two joined that keep the first value only.
pub proof fn lemma_cat_a_hands_back_suffix<'a, A, B, P, Q>(
    first: P,
    second: Q,
    i: &'a str,
    o: (&'a str, A),
) where P: Parser<&'a str, A>, Q: Parser<&'a str, B>
    requires
        hands_back_suffix(first),
        hands_back_suffix(second),
        cat_a_yields(first, second, i, o),
    ensures
        is_suffix(o.0@, i@),
{
    let both = choose|both: (&'a str, (A, B))| #[trigger]
        cat_yields(first, second, i, both) && o == (both.0, both.1.0);
    lemma_cat_hands_back_suffix(first, second, i, both);
}

/// The same for the two joined that keep the second value only.
pub proof fn lemma_cat_b_hands_back_suffix<'a, A, B, P, Q>(
    first: P,
    second: Q,
    i: &'a str,
    o: (&'a str, B),
) where P: Parser<&'a str, A>, Q: Parser<&'a str, B>
    requires
        hands_back_suffix(first),
        hands_back_suffix(second),
        cat_b_yields(first, second, i, o),
    ensures
        is_suffix(o.0@, i@),
{
    let both = choose|both: (&'a str, (A, B))| #[trigger]
        cat_yields(first, second, i, both) && o == (both.0, both.1.1);
    lemma_cat_hands_back_suffix(first, second, i, both);
}

} // verus!
