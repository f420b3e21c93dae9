use vstd::prelude::*;
use super::error::{Error, ErrorKind};
use super::float::Float;
use super::power::{int_pow, wrapping_pow};

verus! {

/// A number: an integer, or a floating-point value of the arithmetic `F`.
///
/// Arithmetic on two integers stays in the integers and wraps around at the
/// bounds of `i64`. As soon as one operand is a floating-point value the other
/// is promoted and the result is a floating-point value. A quotient is always
/// a floating-point value.
#[derive(Debug, PartialEq, Clone, Copy)]
pub enum Number<F> {
    Int(i64),
    Float(F),
}

/// The five operations on numbers.
#[derive(Debug, PartialEq, Eq, Clone, Copy, Structural)]
pub enum Operator {
    Add,
    Sub,
    Mul,
    Div,
    Pow,
}

impl<F: Float> Number<F> {
    /// `f` is a floating-point value that this number may be promoted to: the
    /// value itself, or a conversion of the integer.
    pub open spec fn promotes_to(self, f: F) -> bool {
        match self {
            Number::Int(n) => call_ensures(F::from_int, (n,), f),
            Number::Float(v) => f == v,
        }
    }

    /// `n` is an integer that this number may be truncated to: the integer
    /// itself, or a truncation of the floating-point value.
    pub open spec fn truncates_to(self, n: i64) -> bool {
        match self {
            Number::Int(v) => n == v,
            Number::Float(f) => call_ensures(F::to_int, (f,), n),
        }
    }

    /// `r` is a value that the floating-point operation `op` may return on
    /// `a` and `b`.
    pub open spec fn float_yields(op: Operator, a: F, b: F, r: F) -> bool {
        match op {
            Operator::Add => call_ensures(F::plus, (a, b), r),
            Operator::Sub => call_ensures(F::minus, (a, b), r),
            Operator::Mul => call_ensures(F::times, (a, b), r),
            Operator::Div => call_ensures(F::over, (a, b), r),
            Operator::Pow => call_ensures(F::powf, (a, b), r),
        }
    }

    /// `r` is a floating-point number that `op` may return on promotions of
    /// `self` and `rhs`.
    pub open spec fn promoted_yields(self, op: Operator, rhs: Self, r: Self) -> bool {
        exists|a: F, b: F|
            #![trigger self.promotes_to(a), rhs.promotes_to(b)]
            {
                &&& self.promotes_to(a)
                &&& rhs.promotes_to(b)
                &&& r is Float
                &&& Self::float_yields(op, a, b, r->Float_0)
            }
    }

    /// `r` is a sum of `self` and `rhs`.
    pub open spec fn is_sum(self, rhs: Self, r: Self) -> bool {
        match (self, rhs) {
            (Number::Int(x), Number::Int(y)) => r == Number::<F>::Int(x.wrapping_add(y)),
            _ => self.promoted_yields(Operator::Add, rhs, r),
        }
    }

    /// `r` is a difference of `self` and `rhs`.
    pub open spec fn is_difference(self, rhs: Self, r: Self) -> bool {
        match (self, rhs) {
            (Number::Int(x), Number::Int(y)) => r == Number::<F>::Int(x.wrapping_sub(y)),
            _ => self.promoted_yields(Operator::Sub, rhs, r),
        }
    }

    /// `r` is a product of `self` and `rhs`.
    pub open spec fn is_product(self, rhs: Self, r: Self) -> bool {
        match (self, rhs) {
            (Number::Int(x), Number::Int(y)) => r == Number::<F>::Int(x.wrapping_mul(y)),
            _ => self.promoted_yields(Operator::Mul, rhs, r),
        }
    }

    /// `zero` is an answer that a test of the divisor `self` for zero may
    /// give: for an integer whether it is 0, for a floating-point value what
    /// the arithmetic says.
    pub open spec fn zero_test(self, zero: bool) -> bool {
        match self {
            Number::Int(n) => zero == (n == 0),
            Number::Float(v) => call_ensures(F::is_zero, (v,), zero),
        }
    }

    /// `out` is an outcome of dividing `self` by `rhs`: the division-by-zero
    /// error where the divisor tests as zero, else a floating-point quotient.
    pub open spec fn is_quotient(self, rhs: Self, out: Result<Self, Error>) -> bool {
        exists|zero: bool| #[trigger]
            rhs.zero_test(zero) && if zero {
                out == Err::<Self, Error>(Error::of(ErrorKind::ZeroDiv))
            } else {
                out is Ok && self.promoted_yields(Operator::Div, rhs, out->Ok_0)
            }
    }

    /// `r` is a power of `self` with exponent `rhs`.
    pub open spec fn is_power(self, rhs: Self, r: Self) -> bool {
        match (self, rhs) {
            (Number::Int(x), Number::Int(y)) if y >= 0 => r == Number::<F>::Int(
                wrapping_pow(x, y as nat),
            ),
            _ => self.promoted_yields(Operator::Pow, rhs, r),
        }
    }

    /// `out` is an outcome of applying `op` to `self` and `rhs`.
    pub open spec fn yields(self, op: Operator, rhs: Self, out: Result<Self, Error>) -> bool {
        match op {
            Operator::Add => out is Ok && self.is_sum(rhs, out->Ok_0),
            Operator::Sub => out is Ok && self.is_difference(rhs, out->Ok_0),
            Operator::Mul => out is Ok && self.is_product(rhs, out->Ok_0),
            Operator::Div => self.is_quotient(rhs, out),
            Operator::Pow => out is Ok && self.is_power(rhs, out->Ok_0),
        }
    }

    /// Promotes the number to a floating-point value.
    pub fn to_float(self) -> (f: F)
        ensures
            self.promotes_to(f),
    {
        match self {
            Number::Int(n) => F::from_int(n),
            Number::Float(v) => v,
        }
    }

    /// Truncates the number to an integer.
    pub fn to_int(self) -> (n: i64)
        ensures
            self.truncates_to(n),
    {
        match self {
            Number::Int(n) => n,
            Number::Float(v) => F::to_int(v),
        }
    }

    /// Adds two numbers.
    pub fn add(self, rhs: Self) -> (r: Self)
        ensures
            self.is_sum(rhs, r),
    {
        match (self, rhs) {
            (Number::Int(x), Number::Int(y)) => Number::Int(x.wrapping_add(y)),
            _ => {
                let a = self.to_float();
                let b = rhs.to_float();
                let c = F::plus(a, b);
                assert(self.promotes_to(a) && rhs.promotes_to(b));
                Number::Float(c)
            },
        }
    }

    /// Subtracts `rhs` from `self`.
    pub fn sub(self, rhs: Self) -> (r: Self)
        ensures
            self.is_difference(rhs, r),
    {
        match (self, rhs) {
            (Number::Int(x), Number::Int(y)) => Number::Int(x.wrapping_sub(y)),
            _ => {
                let a = self.to_float();
                let b = rhs.to_float();
                let c = F::minus(a, b);
                assert(self.promotes_to(a) && rhs.promotes_to(b));
                Number::Float(c)
            },
        }
    }

    /// Multiplies two numbers.
    pub fn mul(self, rhs: Self) -> (r: Self)
        ensures
            self.is_product(rhs, r),
    {
        match (self, rhs) {
            (Number::Int(x), Number::Int(y)) => Number::Int(x.wrapping_mul(y)),
            _ => {
                let a = self.to_float();
                let b = rhs.to_float();
                let c = F::times(a, b);
                assert(self.promotes_to(a) && rhs.promotes_to(b));
                Number::Float(c)
            },
        }
    }

    /// Divides `self` by `rhs`, in floating point whatever the operands are.
    /// Fails where the divisor is zero.
    pub fn div(self, rhs: Self) -> (out: Result<Self, Error>)
        ensures
            self.is_quotient(rhs, out),
            rhs == Number::<F>::Int(0) ==> out == Err::<Self, Error>(Error::of(ErrorKind::ZeroDiv)),
            rhs matches Number::Int(n) && n != 0 ==> out is Ok,
    {
        let zero = match rhs {
            Number::Int(n) => n == 0,
            Number::Float(v) => F::is_zero(v),
        };
        assert(rhs.zero_test(zero));
        if zero {
            Err(Error::new(ErrorKind::ZeroDiv))
        } else {
            let a = self.to_float();
            let b = rhs.to_float();
            let c = F::over(a, b);
            assert(self.promotes_to(a) && rhs.promotes_to(b));
            Ok(Number::Float(c))
        }
    }

    /// Raises `self` to the power `rhs`: by repeated multiplication where both
    /// are integers and the exponent is not negative, in floating point
    /// otherwise.
    pub fn pow(self, rhs: Self) -> (r: Self)
        ensures
            self.is_power(rhs, r),
    {
        match (self, rhs) {
            (Number::Int(x), Number::Int(y)) if y >= 0 => Number::Int(int_pow(x, y)),
            _ => {
                let a = self.to_float();
                let b = rhs.to_float();
                let c = F::powf(a, b);
                assert(self.promotes_to(a) && rhs.promotes_to(b));
                Number::Float(c)
            },
        }
    }

    /// Applies `op` to `self` and `rhs`.
    pub fn apply(self, op: Operator, rhs: Self) -> (out: Result<Self, Error>)
        ensures
            self.yields(op, rhs, out),
            op != Operator::Div ==> out is Ok,
    {
        match op {
            Operator::Add => Ok(self.add(rhs)),
            Operator::Sub => Ok(self.sub(rhs)),
            Operator::Mul => Ok(self.mul(rhs)),
            Operator::Div => self.div(rhs),
            Operator::Pow => Ok(self.pow(rhs)),
        }
    }
}

impl<F: Float> From<i64> for Number<F> {
    fn from(value: i64) -> (n: Self) {
        Number::Int(value)
    }
}

impl<F: Float> vstd::std_specs::convert::FromSpecImpl<i64> for Number<F> {
    open spec fn obeys_from_spec() -> bool {
        true
    }

    open spec fn from_spec(value: i64) -> Self {
        Number::Int(value)
    }
}

} // verus!
