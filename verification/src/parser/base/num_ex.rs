use vstd::prelude::*;
use crate::number::float::{is_decimal_text, is_digit};
use crate::number::{Float, Number};
use crate::parser::base::num::{num, num_spec};
use crate::parser::error::Error;
use crate::parser::text::{
    digit_len,
    is_suffix,
    lemma_run_len_bound,
    scan_digits,
    split_first,
    take_digits,
};

verus! {

/// A number as it is written: an integer, or the text of a decimal number.
#[derive(Debug, PartialEq, Eq, Clone)]
pub enum Literal<T> {
    Int(i64),
    Decimal(T),
}

impl View for Literal<String> {
    type V = Literal<Seq<char>>;

    open spec fn view(&self) -> Literal<Seq<char>> {
        match self {
            Literal::Int(n) => Literal::Int(*n),
            Literal::Decimal(text) => Literal::Decimal(text@),
        }
    }
}

/// The length of the decimal number at the front of `i`: digits, a point,
/// digits, with at least one digit in all. Zero where `i` begins with no
/// decimal number.
pub open spec fn decimal_len(i: Seq<char>) -> nat {
    let n1 = digit_len(i);
    let n2 = digit_len(i.skip(n1 as int + 1));
    if n1 < i.len() && i[n1 as int] == '.' && n1 + n2 >= 1 {
        n1 + 1 + n2
    } else {
        0
    }
}

/// What the parser of literals hands back on `i`: the decimal number at the
/// front where there is one, else what the integer parser reads.
pub open spec fn literal_spec(i: Seq<char>) -> Result<(Seq<char>, Literal<Seq<char>>), Error> {
    let n = decimal_len(i) as int;
    if n > 0 {
        Ok((i.skip(n), Literal::Decimal(i.take(n))))
    } else {
        match num_spec(i) {
            Ok((rest, value)) => Ok((rest, Literal::Int(value))),
            Err(e) => Err(e),
        }
    }
}

/// What a parser of literals hands back, the text taken by its characters.
pub open spec fn literal_outcome<'a>(o: Result<(&'a str, Literal<String>), Error>) -> Result<
    (Seq<char>, Literal<Seq<char>>),
    Error,
> {
    match o {
        Ok((rest, lit)) => Ok((rest@, lit@)),
        Err(e) => Err(e),
    }
}

/// The decimal number at the front of a text is decimal text, and what is
/// behind a literal is a suffix of the text.
pub proof fn lemma_literal(i: Seq<char>)
    ensures
        decimal_len(i) <= i.len(),
        decimal_len(i) > 0 ==> is_decimal_text(i.take(decimal_len(i) as int)),
        literal_spec(i) matches Ok((rest, _)) ==> is_suffix(rest, i) && rest.len() < i.len(),
{
    let digit = |c: char| is_digit(c);
    let n1 = digit_len(i) as int;
    lemma_run_len_bound(i, digit);
    if decimal_len(i) > 0 {
        let tail = i.skip(n1 + 1);
        let n2 = digit_len(tail) as int;
        lemma_run_len_bound(tail, digit);
        let text = i.take(n1 + 1 + n2);
        assert(text[n1] == '.');
        assert forall|j: int| 0 <= j < text.len() && j != n1 implies is_digit(
            #[trigger] text[j],
        ) by {
            if j > n1 {
                assert(tail[j - n1 - 1] == i[j]);
            }
        }
    }
}

/// Reads a number as it is written from the front of the text.
pub fn literal<'a>(i: &'a str) -> (o: Result<(&'a str, Literal<String>), Error>)
    ensures
        literal_outcome(o) == literal_spec(i@),
        o matches Ok((rest, _)) ==> is_suffix(rest@, i@) && rest@.len() < i@.len(),
        o matches Ok((_, Literal::Decimal(text))) ==> is_decimal_text(text@),
{
    proof {
        lemma_literal(i@);
    }
    let scan = scan_digits(i);
    let ghost n1 = digit_len(i@) as int;
    proof {
        lemma_run_len_bound(i@, |c: char| is_digit(c));
    }
    match split_first(scan.rest) {
        Some((c, tail)) => {
            assert(c == i@[n1]);
            assert(tail@ =~= i@.skip(n1 + 1));
            if c == '.' {
                let frac = scan_digits(tail);
                if !(scan.empty && frac.empty) {
                    let mut text = String::new();
                    let _ = take_digits(i, &mut text);
                    assert(text@ =~= i@.take(n1));
                    text.push('.');
                    assert(text@ =~= i@.take(n1 + 1));
                    let rest = take_digits(tail, &mut text);
                    let ghost n2 = digit_len(tail@) as int;
                    proof {
                        lemma_run_len_bound(tail@, |c: char| is_digit(c));
                        assert(text@ =~= i@.take(n1 + 1 + n2));
                        assert(rest@ =~= i@.skip(n1 + 1 + n2));
                    }
                    return Ok((rest, Literal::Decimal(text)));
                }
            }
        },
        None => {},
    }
    match num(i) {
        Ok((rest, value)) => Ok((rest, Literal::Int(value))),
        Err(e) => Err(e),
    }
}

/// `f` is a value that the arithmetic may make of the decimal text `text`.
pub open spec fn converts_to<F: Float>(text: Seq<char>, f: F) -> bool {
    exists|t: &str| t@ == text && #[trigger] call_ensures(F::from_decimal, (t,), f)
}

/// `n` is a number that the literal `lit` may stand for.
pub open spec fn stands_for<F: Float>(lit: Literal<Seq<char>>, n: Number<F>) -> bool {
    match lit {
        Literal::Int(value) => n == Number::<F>::Int(value),
        Literal::Decimal(text) => n is Float && converts_to(text, n->Float_0),
    }
}

/// `o` is an outcome of the number parser on `i`: what the parser of
/// literals reads, an integer as it is and a decimal number as a value that
/// the arithmetic makes of its text.
pub open spec fn num_ex_yields<'a, F: Float>(
    i: Seq<char>,
    o: Result<(&'a str, Number<F>), Error>,
) -> bool {
    match literal_spec(i) {
        Err(e) => o == Err::<(&'a str, Number<F>), Error>(e),
        Ok((rest, lit)) => o matches Ok((r, n)) && r@ == rest && stands_for(lit, n),
    }
}

/// The number that a literal stands for.
pub fn number_of<F: Float>(lit: &Literal<String>) -> (n: Number<F>)
    requires
        lit matches Literal::Decimal(text) ==> is_decimal_text(text@),
    ensures
        stands_for(lit@, n),
{
    match lit {
        Literal::Int(value) => Number::Int(*value),
        Literal::Decimal(text) => {
            let t = text.as_str();
            let f = F::from_decimal(t);
            assert(call_ensures(F::from_decimal, (t,), f));
            Number::Float(f)
        },
    }
}

/// The parser of numbers: like the integer parser, but a point behind the
/// digits, with the digits that follow it, makes the number a floating-point
/// value.
pub fn num_ex<'a, F: Float>(i: &'a str) -> (o: Result<(&'a str, Number<F>), Error>)
    ensures
        num_ex_yields(i@, o),
        o matches Ok((rest, _)) ==> is_suffix(rest@, i@),
{
    match literal(i) {
        Ok((rest, lit)) => {
            let n = number_of::<F>(&lit);
            Ok((rest, n))
        },
        Err(e) => Err(e),
    }
}

} // verus!
