use vstd::prelude::*;
use super::error::{Error, ErrorKind};
use super::float::Float;
use super::number::{Number, Operator};
use super::power::lemma_crop_small;

verus! {

/// A sum, difference or product of two integers is an integer, and it is the
/// exact result wherever that fits in 64 bits.
pub proof fn lemma_integers_stay_integers<F: Float>(op: Operator, a: i64, b: i64, r: Number<F>)
    requires
        op == Operator::Add || op == Operator::Sub || op == Operator::Mul,
        Number::<F>::Int(a).yields(op, Number::Int(b), Ok(r)),
    ensures
        r is Int,
        op == Operator::Add && i64::MIN <= a + b <= i64::MAX ==> r->Int_0 == a + b,
        op == Operator::Sub && i64::MIN <= a - b <= i64::MAX ==> r->Int_0 == a - b,
        op == Operator::Mul && i64::MIN <= a * b <= i64::MAX ==> r->Int_0 == a * b,
{
    if op == Operator::Mul && i64::MIN <= a * b <= i64::MAX {
        lemma_crop_small(a * b);
    }
}

/// As soon as one operand is a floating-point value, so is every result, and
/// it is a value that the floating-point operation returns on the promoted
/// operands.
pub proof fn lemma_float_operand_promotes<F: Float>(
    op: Operator,
    x: Number<F>,
    y: Number<F>,
    r: Number<F>,
)
    requires
        x is Float || y is Float,
        x.yields(op, y, Ok(r)),
    ensures
        r is Float,
        x.promoted_yields(op, y, r),
{
}

/// A quotient is a floating-point value, whatever the operands are.
pub proof fn lemma_quotient_is_float<F: Float>(x: Number<F>, y: Number<F>, r: Number<F>)
    requires
        x.is_quotient(y, Ok(r)),
    ensures
        r is Float,
{
}

/// Dividing by the integer 0 fails with the division-by-zero error.
pub proof fn lemma_division_by_integer_zero<F: Float>(x: Number<F>, out: Result<Number<F>, Error>)
    requires
        x.is_quotient(Number::Int(0), out),
    ensures
        out == Err::<Number<F>, Error>(Error::of(ErrorKind::ZeroDiv)),
{
}

/// Dividing by a floating-point value that the arithmetic holds to be zero
/// fails with the division-by-zero error.
pub proof fn lemma_division_by_float_zero<F: Float>(
    x: Number<F>,
    v: F,
    out: Result<Number<F>, Error>,
)
    requires
        forall|zero: bool| call_ensures(F::is_zero, (v,), zero) ==> zero,
        x.is_quotient(Number::Float(v), out),
    ensures
        out == Err::<Number<F>, Error>(Error::of(ErrorKind::ZeroDiv)),
{
}

} // verus!
