use vstd::prelude::*;
use crate::parser::Parser;
use vstd::std_specs::iter::IteratorSpec;
use vstd::string::StrSliceExecFns;
use crate::parser::text::is_suffix;

verus! {

/// `parser` may succeed on the text that begins at offset `k` of `i`.
pub open spec fn succeeds_at<'a, T, E, P>(parser: P, i: Seq<char>, k: int) -> bool where
    P: Parser<&'a str, Result<T, E>>,
 {
    exists|s: &'a str, r: (&'a str, Result<T, E>)|
        #![trigger parser.ensures((s,), r)]
        s@ == i.skip(k) && parser.ensures((s,), r) && r.1 is Ok
}

/// `parser` may fail on the text that begins at offset `k` of `i`.
pub open spec fn fails_at<'a, T, E, P>(parser: P, i: Seq<char>, k: int) -> bool where
    P: Parser<&'a str, Result<T, E>>,
 {
    exists|s: &'a str, r: (&'a str, Result<T, E>)|
        #![trigger parser.ensures((s,), r)]
        s@ == i.skip(k) && parser.ensures((s,), r) && r.1 is Err
}

/// `o` is an outcome of looking in `i` for the first place at which `parser`
/// succeeds: the text from that place on, and the text before it. The parser
/// was run at every offset before that place and failed there. Where it
/// succeeds at no offset short of the end, the text left over is empty and
/// the text before it is all of `i`.
pub open spec fn not_yields<'a, T, E, P>(parser: P, i: &'a str, o: (&'a str, &'a str)) -> bool where
    P: Parser<&'a str, Result<T, E>>,
 {
    exists|k: int|
        #![trigger i@.skip(k)]
        {
            &&& 0 <= k <= i@.len()
            &&& o.0@ == i@.skip(k)
            &&& o.1@ == i@.take(k)
            &&& k < i@.len() ==> succeeds_at(parser, i@, k)
            &&& forall|j: int| 0 <= j < k ==> #[trigger] fails_at(parser, i@, j)
        }
}

/// Moves along the text, one character at a time, until `parser` succeeds.
pub fn scan_until<'a, T, E, P>(parser: &P, i: &'a str) -> (o: (&'a str, &'a str)) where
    P: Parser<&'a str, Result<T, E>>,

    requires
        forall|s: &'a str| parser.requires((s,)),
    ensures
        not_yields(*parser, i, o),
        is_suffix(o.0@, i@),
{
    let n = i.unicode_len();
    let mut it = i.chars();
    let mut k: usize = 0;
    assert(i@.skip(0) =~= i@);
    while k < n
        invariant
            k <= n,
            n == i@.len(),
            it.remaining() == i@.skip(k as int),
            forall|s: &'a str| parser.requires((s,)),
            forall|j: int| 0 <= j < k ==> #[trigger] fails_at(*parser, i@, j),
        decreases n - k,
    {
        let s = it.as_str();
        let (rest, result) = parser(s);
        let ghost r = (rest, result);
        assert(parser.ensures((s,), r));
        let found = match result {
            Ok(_) => true,
            Err(_) => false,
        };
        if found {
            let before = i.substring_char(0, k);
            proof {
                assert(before@ =~= i@.take(k as int));
                assert(succeeds_at(*parser, i@, k as int));
            }
            return (s, before);
        }
        assert(fails_at(*parser, i@, k as int));
        let _ = it.next();
        proof {
            assert(i@.skip(k as int).drop_first() =~= i@.skip(k + 1));
        }
        k = k + 1;
    }
    let s = it.as_str();
    proof {
        assert(i@ =~= i@.take(n as int));
    }
    (s, i)
}

/// The parser that looks for the first place at which `parser` succeeds,
/// trying one offset after the other from the front, and hands back the text
/// before that place as its value and the text from that place on as the
/// text left over. `parser` itself consumes nothing of it.
pub fn not<'a, T, E, P>(parser: P) -> (p: impl Parser<&'a str, &'a str>) where
    P: Parser<&'a str, Result<T, E>>,

    requires
        forall|s: &'a str| parser.requires((s,)),
    ensures
        forall|i: &'a str| p.requires((i,)),
        forall|i: &'a str, o: (&'a str, &'a str)|
            p.ensures((i,), o) ==> not_yields(parser, i, o) && is_suffix(o.0@, i@),
{
    move |i: &'a str| -> (o: (&'a str, &'a str))
        ensures
            not_yields(parser, i, o),
            is_suffix(o.0@, i@),
        { scan_until(&parser, i) }
}

} // verus!
