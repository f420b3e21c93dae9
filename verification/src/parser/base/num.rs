use vstd::prelude::*;
use crate::parser::error::{Error, IntErrorKind};
use crate::parser::outcome::outcome;
use crate::parser::text::{digit_len, digits_value, is_suffix, scan_digits};

verus! {

/// What the integer parser hands back on the text `i`: the number that the
/// leading digits denote and the text behind them; a failure where there is
/// no digit, or where the number does not fit the integer type.
pub open spec fn num_spec(i: Seq<char>) -> Result<(Seq<char>, i64), Error> {
    let n = digit_len(i) as int;
    let value = digits_value(i.take(n));
    if n == 0 {
        Err(Error::ParseIntErrror(IntErrorKind::Empty))
    } else if value > i64::MAX {
        Err(Error::ParseIntErrror(IntErrorKind::PosOverflow))
    } else {
        Ok((i.skip(n), value as i64))
    }
}

/// The parser that takes the longest run of decimal digits at the front of a
/// text and reads it as a 64-bit integer. Signs and decimal points are not
/// part of a number.
pub fn num<'a>(i: &'a str) -> (o: Result<(&'a str, i64), Error>)
    ensures
        outcome(o) == num_spec(i@),
        o matches Ok((rest, _)) ==> is_suffix(rest@, i@),
{
    proof {
        crate::parser::text::lemma_run_len_bound(i@, |c: char| crate::number::float::is_digit(c));
    }
    let scan = scan_digits(i);
    if scan.empty {
        return Err(Error::ParseIntErrror(IntErrorKind::Empty));
    }
    match scan.value {
        Some(value) => {
            if value > 0x7fff_ffff_ffff_ffff {
                Err(Error::ParseIntErrror(IntErrorKind::PosOverflow))
            } else {
                Ok((scan.rest, value as i64))
            }
        },
        None => Err(Error::ParseIntErrror(IntErrorKind::PosOverflow)),
    }
}

} // verus!
