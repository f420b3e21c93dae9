use my_parser_project::number::number::Operator;
use my_parser_project::number::power::int_pow;
use my_parser_project::number::{Error, ErrorKind, Float, Number};

/// Double-precision arithmetic for the numbers under test.
#[derive(Debug, Clone, Copy, PartialEq)]
struct F64(f64);

impl Float for F64 {
    fn from_int(value: i64) -> Self {
        F64(value as f64)
    }

    fn from_decimal(text: &str) -> Self {
        F64(text.parse().unwrap())
    }

    fn to_int(self) -> i64 {
        self.0 as i64
    }

    fn is_zero(self) -> bool {
        self.0 == 0.0
    }

    fn plus(self, rhs: Self) -> Self {
        F64(self.0 + rhs.0)
    }

    fn minus(self, rhs: Self) -> Self {
        F64(self.0 - rhs.0)
    }

    fn times(self, rhs: Self) -> Self {
        F64(self.0 * rhs.0)
    }

    fn over(self, rhs: Self) -> Self {
        F64(self.0 / rhs.0)
    }

    fn powf(self, rhs: Self) -> Self {
        F64(self.0.powf(rhs.0))
    }
}

#[allow(non_snake_case)]
fn Int(value: i64) -> Number<F64> {
    Number::Int(value)
}

#[allow(non_snake_case)]
fn Float(value: f64) -> Number<F64> {
    Number::Float(F64(value))
}

// integer plus integer
#[test]
fn tests_test1() {
    let x = Int(1);
    let y = Int(1);
    assert_eq!(x.add(y), Int(2))
}

// integer minus integer
#[test]
fn tests_test2() {
    let x = Int(2);
    let y = Int(1);
    assert_eq!(x.sub(y), Int(1))
}

// integer times integer
#[test]
fn tests_test3() {
    let x = Int(2);
    let y = Int(3);
    assert_eq!(x.mul(y), Int(6))
}

// integer divided by integer
#[test]
fn tests_test4() {
    let x = Int(2);
    let y = Int(2);
    assert_eq!(x.div(y), Ok(Float(1.0)))
}

// integer plus float
#[test]
fn tests_test5() {
    let x = Int(1);
    let y = Float(1.0);
    assert_eq!(x.add(y), Float(2.0))
}

// float minus integer
#[test]
fn tests_test6() {
    let x = Float(2.0);
    let y = Int(1);
    assert_eq!(x.sub(y), Float(1.0))
}

// float times float
#[test]
fn test7() {
    let x = Float(2.0);
    let y = Float(3.0);
    assert_eq!(x.mul(y), Float(6.0))
}

// integer divided by float
#[test]
fn test8() {
    let x = Int(3);
    let y = Float(1.0);
    assert_eq!(x.div(y), Ok(Float(3.0)))
}

// a power with a negative exponent
#[test]
fn test9() {
    let x = Int(2);
    let y = Int(-1);
    assert_eq!(x.pow(y), Float(0.5))
}

// division by zero
#[test]
fn test10() {
    let x = vec![Int(4), Int(0), Float(3.0), Float(3.14), Float(0.0)];
    let i_zero = Int(0);
    let f_zero = Float(0.0);
    let error = Err(Error::from(ErrorKind::ZeroDiv));
    for x in x {
        assert_eq!(x.div(i_zero), error);
        assert_eq!(x.div(f_zero), error);
    }
}

#[test]
fn division_by_negative_zero_fails() {
    assert_eq!(Int(1).div(Float(-0.0)), Err(Error::new(ErrorKind::ZeroDiv)));
}

#[test]
fn quotient_of_integers_is_a_float_even_when_exact() {
    assert_eq!(Int(6).div(Int(3)), Ok(Float(2.0)));
    assert_eq!(Int(1).div(Int(4)), Ok(Float(0.25)));
}

#[test]
fn integer_power_is_an_integer() {
    assert_eq!(Int(2).pow(Int(10)), Int(1024));
    assert_eq!(Int(-3).pow(Int(3)), Int(-27));
    assert_eq!(Int(7).pow(Int(0)), Int(1));
    assert_eq!(Int(0).pow(Int(0)), Int(1));
}

#[test]
fn power_with_a_float_is_a_float() {
    assert_eq!(Float(2.0).pow(Int(3)), Float(8.0));
    assert_eq!(Int(4).pow(Float(0.5)), Float(2.0));
    assert_eq!(Float(1.5).pow(Float(2.0)), Float(2.25));
}

#[test]
fn integer_arithmetic_wraps_around() {
    assert_eq!(Int(i64::MAX).add(Int(1)), Int(i64::MIN));
    assert_eq!(Int(i64::MIN).sub(Int(1)), Int(i64::MAX));
    assert_eq!(Int(i64::MAX).mul(Int(2)), Int(-2));
    assert_eq!(Int(2).pow(Int(63)), Int(i64::MIN));
    assert_eq!(Int(2).pow(Int(64)), Int(0));
    assert_eq!(int_pow(3, 41), 3i64.wrapping_pow(41));
}

#[test]
fn promotion_on_either_side() {
    assert_eq!(Float(1.5).add(Int(2)), Float(3.5));
    assert_eq!(Int(2).sub(Float(0.5)), Float(1.5));
    assert_eq!(Int(3).mul(Float(0.5)), Float(1.5));
    assert_eq!(Float(0.5).mul(Int(3)), Float(1.5));
}

#[test]
fn apply_chooses_the_operation() {
    assert_eq!(Int(7).apply(Operator::Add, Int(2)), Ok(Int(9)));
    assert_eq!(Int(7).apply(Operator::Sub, Int(2)), Ok(Int(5)));
    assert_eq!(Int(7).apply(Operator::Mul, Int(2)), Ok(Int(14)));
    assert_eq!(Int(7).apply(Operator::Div, Int(2)), Ok(Float(3.5)));
    assert_eq!(Int(7).apply(Operator::Pow, Int(2)), Ok(Int(49)));
    assert_eq!(Int(7).apply(Operator::Div, Int(0)), Err(Error::new(ErrorKind::ZeroDiv)));
}

#[test]
fn conversions() {
    assert_eq!(Int(3).to_float(), F64(3.0));
    assert_eq!(Float(2.5).to_float(), F64(2.5));
    assert_eq!(Int(3).to_int(), 3);
    assert_eq!(Float(2.9).to_int(), 2);
    assert_eq!(Number::<F64>::from(5), Int(5));
}

#[test]
fn error_kind_and_message() {
    let e = Error::new(ErrorKind::ZeroDiv);
    assert_eq!(e.kind(), &ErrorKind::ZeroDiv);
    assert_eq!(e.message(), "NumberZeroDivError");
    assert_eq!(ErrorKind::InvalidExponent.message(), "NumberPowError");
    assert_eq!(Error::from(ErrorKind::InvalidExponent).kind(), &ErrorKind::InvalidExponent);
}
