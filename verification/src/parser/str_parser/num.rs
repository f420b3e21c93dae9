use vstd::prelude::*;
use crate::parser::error::IntErrorKind;
use crate::parser::str_parser::error::{Error, ErrorKind};
use crate::parser::text::{digit_len, digits_value, is_suffix, scan_digits};

verus! {

/// `o` is what the number parser hands back on `i`: the number that the
/// leading digits denote and the text behind them; or, where there is no
/// digit or the number does not fit in 64 bits, the failure and the text
/// itself.
pub open spec fn num_yields<'a>(i: &'a str, o: (&'a str, Result<u64, Error>)) -> bool {
    let n = digit_len(i@) as int;
    let value = digits_value(i@.take(n));
    if n == 0 {
        o.0 == i && o.1 == Err::<u64, Error>(
            Error::of(ErrorKind::ParseNumError(IntErrorKind::Empty)),
        )
    } else if value > u64::MAX {
        o.0 == i && o.1 == Err::<u64, Error>(
            Error::of(ErrorKind::ParseNumError(IntErrorKind::PosOverflow)),
        )
    } else {
        o.0@ == i@.skip(n) && o.1 == Ok::<u64, Error>(value as u64)
    }
}

/// The parser that takes the longest run of decimal digits at the front of a
/// text and reads it as an unsigned 64-bit integer. Signs and decimal points
/// are not part of a number.
pub fn num<'a>(i: &'a str) -> (o: (&'a str, Result<u64, Error>))
    ensures
        num_yields(i, o),
        is_suffix(o.0@, i@),
{
    proof {
        crate::parser::text::lemma_run_len_bound(i@, |c: char| crate::number::float::is_digit(c));
        assert(i@.skip(0) =~= i@);
    }
    let scan = scan_digits(i);
    if scan.empty {
        return (i, Err(Error::new(ErrorKind::ParseNumError(IntErrorKind::Empty))));
    }
    match scan.value {
        Some(value) => (scan.rest, Ok(value)),
        None => (i, Err(Error::new(ErrorKind::ParseNumError(IntErrorKind::PosOverflow)))),
    }
}

} // verus!
