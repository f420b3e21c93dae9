use vstd::prelude::*;
use std::str::Chars;
use vstd::std_specs::iter::IteratorSpec;
use crate::number::float::is_digit;

verus! {

/// `rest` is what is left of `input` after some of its front was taken away.
pub open spec fn is_suffix(rest: Seq<char>, input: Seq<char>) -> bool {
    rest.len() <= input.len() && rest == input.skip(input.len() - rest.len())
}

/// The characters with the Unicode property `White_Space`.
pub open spec fn is_whitespace(c: char) -> bool {
    let u = c as u32;
    ||| 0x09 <= u <= 0x0d
    ||| u == 0x20
    ||| u == 0x85
    ||| u == 0xa0
    ||| u == 0x1680
    ||| 0x2000 <= u <= 0x200a
    ||| u == 0x2028
    ||| u == 0x2029
    ||| u == 0x202f
    ||| u == 0x205f
    ||| u == 0x3000
}

/// The length of the longest prefix of `s` whose characters all satisfy `p`.
pub open spec fn run_len(s: Seq<char>, p: spec_fn(char) -> bool) -> nat
    decreases s.len(),
{
    if s.len() > 0 && p(s[0]) {
        1 + run_len(s.drop_first(), p)
    } else {
        0
    }
}

/// The number of whitespace characters at the front of `s`.
pub open spec fn whitespace_len(s: Seq<char>) -> nat {
    run_len(s, |c: char| is_whitespace(c))
}

/// The text `s` without the whitespace at its front.
pub open spec fn trimmed(s: Seq<char>) -> Seq<char> {
    s.skip(whitespace_len(s) as int)
}

/// Trimming takes characters away from the front and nothing else.
pub proof fn lemma_trimmed(s: Seq<char>)
    ensures
        is_suffix(trimmed(s), s),
        trimmed(s).len() <= s.len(),
{
    lemma_run_len_bound(s, |c: char| is_whitespace(c));
}

/// The number of decimal digits at the front of `s`.
pub open spec fn digit_len(s: Seq<char>) -> nat {
    run_len(s, |c: char| is_digit(c))
}

/// The number that the digits `s` denote in base ten.
pub open spec fn digits_value(s: Seq<char>) -> nat
    decreases s.len(),
{
    if s.len() == 0 {
        0
    } else {
        digits_value(s.drop_last()) * 10 + (s.last() as u32 - 0x30) as nat
    }
}

/// A run is never longer than the text.
pub proof fn lemma_run_len_bound(s: Seq<char>, p: spec_fn(char) -> bool)
    ensures
        run_len(s, p) <= s.len(),
        forall|j: int| 0 <= j < run_len(s, p) ==> p(#[trigger] s[j]),
        run_len(s, p) < s.len() ==> !p(s[run_len(s, p) as int]),
    decreases s.len(),
{
    if s.len() > 0 && p(s[0]) {
        let t = s.drop_first();
        lemma_run_len_bound(t, p);
        assert forall|j: int| 0 <= j < run_len(s, p) implies p(#[trigger] s[j]) by {
            if j > 0 {
                assert(t[j - 1] == s[j]);
            }
        }
        if run_len(s, p) < s.len() {
            assert(t[run_len(t, p) as int] == s[run_len(s, p) as int]);
        }
    }
}

/// The run is the one prefix that satisfies `p` throughout and cannot be
/// made longer.
pub proof fn lemma_run_len_is(s: Seq<char>, p: spec_fn(char) -> bool, k: int)
    requires
        0 <= k <= s.len(),
        forall|j: int| 0 <= j < k ==> p(#[trigger] s[j]),
        k == s.len() || !p(s[k]),
    ensures
        run_len(s, p) == k,
    decreases k,
{
    if k > 0 {
        let t = s.drop_first();
        assert(p(s[0]));
        assert forall|j: int| 0 <= j < k - 1 implies p(#[trigger] t[j]) by {
            assert(t[j] == s[j + 1]);
        }
        if k < s.len() {
            assert(t[k - 1] == s[k]);
        }
        lemma_run_len_is(t, p, k - 1);
    }
}

/// Being a suffix carries over from one parser to the next.
pub proof fn lemma_suffix_transitive(a: Seq<char>, b: Seq<char>, c: Seq<char>)
    requires
        is_suffix(a, b),
        is_suffix(b, c),
    ensures
        is_suffix(a, c),
{
    assert(a =~= c.skip(c.len() - a.len()));
}

/// Assumed of `std::str::Chars::as_str`, not proved: the slice that it hands
/// back holds exactly the characters that the iterator has yet to yield.
pub assume_specification<'a>[ Chars::<'a>::as_str ](chars: &Chars<'a>) -> (rest: &'a str)
    ensures
        rest@ == chars.remaining(),
;

/// Assumed of `String::push`, not proved: afterwards the string is what it
/// was before, with `c` at its end.
pub assume_specification[ String::push ](text: &mut String, c: std::primitive::char)
    ensures
        final(text)@ == old(text)@.push(c),
;

/// Whether `c` is whitespace.
pub fn is_space(c: char) -> (b: bool)
    ensures
        b == is_whitespace(c),
{
    let u: u32 = c as u32;
    (0x09 <= u && u <= 0x0d) || u == 0x20 || u == 0x85 || u == 0xa0 || u == 0x1680 || (0x2000
        <= u && u <= 0x200a) || u == 0x2028 || u == 0x2029 || u == 0x202f || u == 0x205f || u
        == 0x3000
}

/// Whether `c` is a decimal digit.
pub fn is_decimal_digit(c: char) -> (b: bool)
    ensures
        b == is_digit(c),
{
    let u: u32 = c as u32;
    0x30 <= u && u <= 0x39
}

/// Splits the text into its first character and the rest.
pub fn split_first<'a>(i: &'a str) -> (r: Option<(char, &'a str)>)
    ensures
        i@.len() == 0 ==> r is None,
        i@.len() > 0 ==> r is Some && r->Some_0.0 == i@[0] && r->Some_0.1@ == i@.drop_first(),
{
    let mut it = i.chars();
    match it.next() {
        Some(c) => Some((c, it.as_str())),
        None => None,
    }
}

/// Drops the whitespace at the front of the text.
pub fn trim_start<'a>(i: &'a str) -> (rest: &'a str)
    ensures
        rest@ == trimmed(i@),
        is_suffix(rest@, i@),
{
    proof {
        lemma_trimmed(i@);
    }
    let mut it = i.chars();
    let mut rest = i;
    let ghost mut k: int = 0;
    assert(i@.skip(0) =~= i@);
    loop
        invariant_except_break
            it.remaining() == i@.skip(k),
        invariant
            0 <= k <= i@.len(),
            rest@ == i@.skip(k),
            forall|j: int| 0 <= j < k ==> is_whitespace(#[trigger] i@[j]),
        ensures
            rest@ == i@.skip(whitespace_len(i@) as int),
        decreases i@.len() - k,
    {
        match it.next() {
            Some(c) => {
                assert(c == i@[k]);
                if is_space(c) {
                    rest = it.as_str();
                    proof {
                        assert(i@.skip(k).drop_first() =~= i@.skip(k + 1));
                        k = k + 1;
                    }
                } else {
                    proof {
                        lemma_run_len_is(i@, |c: char| is_whitespace(c), k);
                    }
                    break ;
                }
            },
            None => {
                proof {
                    lemma_run_len_is(i@, |c: char| is_whitespace(c), k);
                }
                break ;
            },
        }
    }
    rest
}

/// What a scan of leading digits finds.
pub struct DigitScan<'a> {
    /// The text behind the digits.
    pub rest: &'a str,
    /// Whether there was no digit at all.
    pub empty: bool,
    /// The number that the digits denote, where it fits in 64 bits.
    pub value: Option<u64>,
}

/// Reads the decimal digits at the front of the text.
pub fn scan_digits<'a>(i: &'a str) -> (scan: DigitScan<'a>)
    ensures
        scan.rest@ == i@.skip(digit_len(i@) as int),
        scan.empty == (digit_len(i@) == 0),
        scan.value == (if digits_value(i@.take(digit_len(i@) as int)) <= u64::MAX {
            Some(digits_value(i@.take(digit_len(i@) as int)) as u64)
        } else {
            None
        }),
{
    let mut it = i.chars();
    let mut rest = i;
    let mut empty = true;
    let mut value: Option<u64> = Some(0);
    let ghost mut k: int = 0;
    assert(i@.skip(0) =~= i@);
    assert(i@.take(0).len() == 0);
    loop
        invariant_except_break
            it.remaining() == i@.skip(k),
        invariant
            0 <= k <= i@.len(),
            rest@ == i@.skip(k),
            empty == (k == 0),
            forall|j: int| 0 <= j < k ==> is_digit(#[trigger] i@[j]),
            value matches Some(v) ==> v == digits_value(i@.take(k)),
            value is None ==> digits_value(i@.take(k)) > u64::MAX,
        ensures
            k == digit_len(i@),
            rest@ == i@.skip(k),
            empty == (k == 0),
            value matches Some(v) ==> v == digits_value(i@.take(k)),
            value is None ==> digits_value(i@.take(k)) > u64::MAX,
        decreases i@.len() - k,
    {
        match it.next() {
            Some(c) => {
                assert(c == i@[k]);
                if is_decimal_digit(c) {
                    rest = it.as_str();
                    empty = false;
                    let d: u64 = (c as u32 - 0x30) as u64;
                    proof {
                        assert(i@.skip(k).drop_first() =~= i@.skip(k + 1));
                        assert(i@.take(k + 1).drop_last() =~= i@.take(k));
                        assert(i@.take(k + 1).last() == c);
                    }
                    value = match value {
                        Some(v) => if v > (u64::MAX - d) / 10 {
                            None
                        } else {
                            Some(v * 10 + d)
                        },
                        None => None,
                    };
                    proof {
                        k = k + 1;
                    }
                } else {
                    proof {
                        lemma_run_len_is(i@, |c: char| is_digit(c), k);
                    }
                    break ;
                }
            },
            None => {
                proof {
                    lemma_run_len_is(i@, |c: char| is_digit(c), k);
                }
                break ;
            },
        }
    }
    DigitScan { rest, empty, value }
}

/// Moves the decimal digits at the front of the text to the end of `text`.
pub fn take_digits<'a>(i: &'a str, text: &mut String) -> (rest: &'a str)
    ensures
        rest@ == i@.skip(digit_len(i@) as int),
        final(text)@ == old(text)@ + i@.take(digit_len(i@) as int),
{
    let mut it = i.chars();
    let mut rest = i;
    let ghost mut k: int = 0;
    assert(i@.skip(0) =~= i@);
    assert(text@ + i@.take(0) =~= text@);
    loop
        invariant_except_break
            it.remaining() == i@.skip(k),
        invariant
            0 <= k <= i@.len(),
            rest@ == i@.skip(k),
            forall|j: int| 0 <= j < k ==> is_digit(#[trigger] i@[j]),
            text@ == old(text)@ + i@.take(k),
        ensures
            k == digit_len(i@),
            rest@ == i@.skip(k),
            text@ == old(text)@ + i@.take(k),
        decreases i@.len() - k,
    {
        match it.next() {
            Some(c) => {
                assert(c == i@[k]);
                if is_decimal_digit(c) {
                    rest = it.as_str();
                    text.push(c);
                    proof {
                        assert(i@.skip(k).drop_first() =~= i@.skip(k + 1));
                        assert((old(text)@ + i@.take(k)).push(c) =~= old(text)@ + i@.take(k + 1));
                        k = k + 1;
                    }
                } else {
                    proof {
                        lemma_run_len_is(i@, |c: char| is_digit(c), k);
                    }
                    break ;
                }
            },
            None => {
                proof {
                    lemma_run_len_is(i@, |c: char| is_digit(c), k);
                }
                break ;
            },
        }
    }
    rest
}

/// Whether `text` begins with `prefix`.
pub open spec fn starts_with(text: Seq<char>, prefix: Seq<char>) -> bool {
    prefix.len() <= text.len() && text.take(prefix.len() as int) == prefix
}

/// What is left of the text behind `prefix`, where the text begins with it.
pub fn strip_prefix<'a>(i: &'a str, prefix: &str) -> (r: Option<&'a str>)
    ensures
        starts_with(i@, prefix@) ==> r is Some && r->Some_0@ == i@.skip(prefix@.len() as int),
        !starts_with(i@, prefix@) ==> r is None,
{
    let mut pattern = prefix.chars();
    let mut it = i.chars();
    let ghost mut k: int = 0;
    assert(i@.skip(0) =~= i@);
    assert(prefix@.skip(0) =~= prefix@);
    loop
        invariant
            0 <= k <= i@.len(),
            k <= prefix@.len(),
            it.remaining() == i@.skip(k),
            pattern.remaining() == prefix@.skip(k),
            forall|j: int| 0 <= j < k ==> i@[j] == #[trigger] prefix@[j],
        decreases prefix@.len() - k,
    {
        match pattern.next() {
            None => {
                assert(i@.take(k) =~= prefix@);
                return Some(it.as_str());
            },
            Some(wanted) => {
                assert(wanted == prefix@[k]);
                match it.next() {
                    Some(c) => {
                        assert(c == i@[k]);
                        if c != wanted {
                            assert(starts_with(i@, prefix@) ==> i@.take(prefix@.len() as int)[k]
                                == prefix@[k]);
                            return None;
                        }
                        proof {
                            assert(i@.skip(k).drop_first() =~= i@.skip(k + 1));
                            assert(prefix@.skip(k).drop_first() =~= prefix@.skip(k + 1));
                            k = k + 1;
                        }
                    },
                    None => {
                        return None;
                    },
                }
            },
        }
    }
}

} // verus!
