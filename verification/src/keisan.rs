use vstd::prelude::*;
use crate::number::{Float, Number};
use crate::parser::base::char::{char_spec, expect_char};
use crate::parser::base::num_ex::{literal, literal_spec, number_of, stands_for};
use crate::parser::text::{is_suffix, lemma_suffix_transitive, trim_start, trimmed};

verus! {

/// The failure of the calculator.
#[derive(Debug, PartialEq, Eq, Clone, Copy)]
pub enum Error<'a> {
    /// What was expected was not found; carries the text at which it was
    /// looked for.
    ParseError(&'a str),
}

/// `o` is an outcome of the calculator on `input`: the sum of the two
/// numbers around a `+`, with the text behind the second number; or a
/// failure that holds the text at which a number or the `+` was missing,
/// with the whitespace at its front.
pub open spec fn sum_yields<'a, F: Float>(
    input: &'a str,
    o: Result<(&'a str, Number<F>), Error<'a>>,
) -> bool {
    match literal_spec(trimmed(input@)) {
        Err(_) => o == Err::<(&'a str, Number<F>), Error<'a>>(Error::ParseError(input)),
        Ok((r1, first)) => match char_spec('+', trimmed(r1)) {
            Err(_) => o matches Err(Error::ParseError(at)) && at@ == r1,
            Ok((r2, _)) => match literal_spec(trimmed(r2)) {
                Err(_) => o matches Err(Error::ParseError(at)) && at@ == r2,
                Ok((r3, second)) => o matches Ok((rest, sum)) && rest@ == r3 && exists|
                    x: Number<F>,
                    y: Number<F>,
                |
                    #![trigger x.is_sum(y, sum)]
                    stands_for(first, x) && stands_for(second, y) && x.is_sum(y, sum),
            },
        },
    }
}

/// A calculator for the sum of two numbers: reads a number, a `+` and a
/// number, with whitespace before each of them, and adds the two. Text that
/// follows the second number is handed back.
pub fn parser<'a, F: Float>(input: &'a str) -> (o: Result<(&'a str, Number<F>), Error<'a>>)
    ensures
        sum_yields(input, o),
        o matches Ok((rest, _)) ==> is_suffix(rest@, input@),
{
    // first value
    let (input1, first) = match literal(trim_start(input)) {
        Ok(found) => found,
        Err(_) => {
            return Err(Error::ParseError(input));
        },
    };
    // symbol
    let at_symbol = trim_start(input1);
    let (input2, _) = match expect_char('+', at_symbol) {
        Ok(found) => found,
        Err(_) => {
            return Err(Error::ParseError(input1));
        },
    };
    // second value
    let (input3, second) = match literal(trim_start(input2)) {
        Ok(found) => found,
        Err(_) => {
            return Err(Error::ParseError(input2));
        },
    };
    let x = number_of::<F>(&first);
    let y = number_of::<F>(&second);
    let sum = x.add(y);
    proof {
        assert(input2@ =~= at_symbol@.skip(1));
        assert(is_suffix(input2@, at_symbol@));
        lemma_suffix_transitive(input1@, trimmed(input@), input@);
        lemma_suffix_transitive(input2@, at_symbol@, input1@);
        lemma_suffix_transitive(input2@, input1@, input@);
        lemma_suffix_transitive(input3@, trimmed(input2@), input2@);
        lemma_suffix_transitive(input3@, input2@, input@);
        assert(stands_for(first@, x) && stands_for(second@, y) && x.is_sum(y, sum));
    }
    Ok((input3, sum))
}

} // verus!
