use my_parser_project::keisan;
use my_parser_project::number;
use my_parser_project::number::{Float, Number};
use my_parser_project::parser::base::Literal;
use my_parser_project::parser::evaluation::parse_and_calc;
use my_parser_project::parser::numerical_expression::{
    parser, Exponent, Expression, Factor, Term,
};
use my_parser_project::parser::{Error, IntErrorKind};

/// Double-precision arithmetic for the numbers under test.
#[derive(Debug, Clone, Copy, PartialEq)]
struct F64(f64);

impl Float for F64 {
    fn from_int(value: i64) -> Self {
        F64(value as f64)
    }

    fn from_decimal(text: &str) -> Self {
        F64(text.parse().unwrap())
    }

    fn to_int(self) -> i64 {
        self.0 as i64
    }

    fn is_zero(self) -> bool {
        self.0 == 0.0
    }

    fn plus(self, rhs: Self) -> Self {
        F64(self.0 + rhs.0)
    }

    fn minus(self, rhs: Self) -> Self {
        F64(self.0 - rhs.0)
    }

    fn times(self, rhs: Self) -> Self {
        F64(self.0 * rhs.0)
    }

    fn over(self, rhs: Self) -> Self {
        F64(self.0 / rhs.0)
    }

    fn powf(self, rhs: Self) -> Self {
        F64(self.0.powf(rhs.0))
    }
}

fn whole(value: i64) -> Number<F64> {
    Number::Int(value)
}

fn decimal(value: f64) -> Number<F64> {
    Number::Float(F64(value))
}

fn value_of(text: &str) -> Number<F64> {
    let (rest, n) = parse_and_calc::<F64>(text).unwrap();
    assert_eq!(rest, "");
    n
}

fn seq(e: Error) -> Error {
    Error::CombinatorParseError(Box::new(e), None)
}

fn alt(a: Error, b: Error) -> Error {
    Error::CombinatorParseError(Box::new(a), Some(Box::new(b)))
}

#[test]
fn numerical_expression_test1() {
    let base = "1+1";
    assert_eq!(parse_and_calc::<F64>(base), Ok(("", whole(2))));
}

#[test]
fn numerical_expression_test2() {
    let base = "2 + 4";
    assert_eq!(parse_and_calc::<F64>(base), Ok(("", whole(6))));
}

#[test]
fn numerical_expression_test3() {
    let base = "aa1+1ffad";
    assert!(matches!(parse_and_calc::<F64>(base), Err(_)));
}

#[test]
fn numerical_expression_test4() {
    let base = "1 + a 1";
    assert_eq!(parse_and_calc::<F64>(base), Ok((" + a 1", whole(1))))
}

#[test]
fn numerical_expression_test5() {
    let base = "1 + 1aaaaaa";
    assert_eq!(parse_and_calc::<F64>(base), Ok(("aaaaaa", whole(2))));
}

#[test]
fn numerical_expression_test6() {
    let base = vec![
        ("2.0 + 2.0add", ("add", decimal(4.0))),
        ("2.0 - 2.0sub", ("sub", decimal(0.0))),
        ("2.0 * 2.0mul", ("mul", decimal(4.0))),
        ("2.0 / 2.0div", ("div", decimal(1.0))),
    ];

    for (base, ans) in base {
        let (s, o) = Expression::new(base).unwrap();
        let n = o.calc::<F64>().unwrap();
        assert_eq!((s, n), ans)
    }
}

#[test]
fn test2_1() {
    let base = "10 + 2";
    let (_, o) = Expression::new(base).unwrap();
    println!("{:?}", o);
    let a = o.calc::<F64>().unwrap();
    println!("{:?}", a);
    assert_eq!(a, whole(12));
}

#[test]
fn test2_2() {
    let base = "2+3*4";
    let (_, e) = parser(base).unwrap();
    let ans = Expression::Add(
        Term::Exponent(Exponent::Factor(Factor::Number(Literal::Int(2)))),
        Box::new(Expression::Term(Term::Mul(
            Exponent::Factor(Factor::Number(Literal::Int(3))),
            Box::new(Term::Exponent(Exponent::Factor(Factor::Number(Literal::Int(4))))),
        ))),
    );
    assert_eq!(e, ans);
    let n = e.calc::<F64>().unwrap();
    assert_eq!(n, whole(14))
}

#[test]
fn test2_3() {
    let base = "(1 + 2 + 3 + 4 + 5 + 6 + 7 + 8 + 9)*2";
    let (_, n) = parse_and_calc::<F64>(base).unwrap();
    assert_eq!(n, whole(90))
}

#[test]
fn precedence() {
    assert_eq!(value_of("2+3*4"), whole(14));
    assert_eq!(value_of("2*3+4"), whole(10));
    assert_eq!(value_of("2*3^2"), whole(18));
    assert_eq!(value_of("(2+3)*4"), whole(20));
    assert_eq!(value_of("(1+2+3+4+5+6+7+8+9)*2"), whole(90));
}

#[test]
fn sums_and_products_go_from_left_to_right() {
    assert_eq!(value_of("10-3-2"), whole(5));
    assert_eq!(value_of("10-3+2"), whole(9));
    assert_eq!(value_of("2-3+4"), whole(3));
    assert_eq!(value_of("100-1-2-3-4"), whole(90));
    assert_eq!(value_of("8/4/2"), decimal(1.0));
    assert_eq!(value_of("8/4*2"), decimal(4.0));
    assert_eq!(value_of("2*3/4"), decimal(1.5));
    assert_eq!(value_of("1-2*3-4"), whole(-9));
}

#[test]
fn powers_go_from_right_to_left() {
    assert_eq!(value_of("2^3^2"), whole(512));
    assert_eq!(value_of("(2^3)^2"), whole(64));
    assert_eq!(parse_and_calc::<F64>("2^-1"), Ok(("^-1", whole(2))));
    assert_eq!(value_of("2 ^ 0.5 ^ 1"), decimal(2f64.powf(0.5)));
}

#[test]
fn trailing_text_is_left_over() {
    assert_eq!(parse_and_calc::<F64>("1 + 1aaaaaa"), Ok(("aaaaaa", whole(2))));
    assert_eq!(parse_and_calc::<F64>("1 + "), Ok((" + ", whole(1))));
    assert_eq!(parse_and_calc::<F64>("2 * (3"), Ok((" * (3", whole(2))));
    assert_eq!(parse_and_calc::<F64>("2^"), Ok(("^", whole(2))));
    assert_eq!(parse_and_calc::<F64>("7 "), Ok((" ", whole(7))));
}

#[test]
fn floats() {
    assert_eq!(value_of("2.0 / 2.0"), decimal(1.0));
    assert_eq!(value_of("1 + 0.5"), decimal(1.5));
    assert_eq!(value_of("1.5 * 2"), decimal(3.0));
    assert_eq!(value_of("3 / 2"), decimal(1.5));
    assert_eq!(value_of(".5 + 1."), decimal(1.5));
}

#[test]
fn whitespace_is_skipped_everywhere() {
    assert_eq!(value_of("  ( 1\t+\n2 )  *  3"), whole(9));
    assert_eq!(value_of("\u{3000}4\u{a0}-\u{2003}1"), whole(3));
}

#[test]
fn division_by_zero_ends_the_evaluation() {
    let zero_div = Error::NumberError(number::Error::new(number::ErrorKind::ZeroDiv));
    assert_eq!(parse_and_calc::<F64>("1/0"), Err(zero_div));
    assert_eq!(
        parse_and_calc::<F64>("1 + 2/(3-3) + 4"),
        Err(Error::from(number::Error::new(number::ErrorKind::ZeroDiv)))
    );
    assert_eq!(
        parse_and_calc::<F64>("1/0.0"),
        Err(Error::NumberError(number::Error::new(number::ErrorKind::ZeroDiv)))
    );
    let (_, tree) = parser("2^(1/0)").unwrap();
    assert_eq!(tree.calc::<F64>(), Err(number::Error::new(number::ErrorKind::ZeroDiv)));
}

#[test]
fn malformed_text_gives_a_structured_error() {
    let no_number = Error::ParseIntErrror(IntErrorKind::Empty);
    let factor = seq(alt(no_number, seq(seq(seq(seq(Error::ParseCharError))))));
    let expression = seq(seq(seq(seq(seq(factor)))));
    assert_eq!(parser("aa1+1ffad"), Err(expression));
}

#[test]
fn errors_of_parentheses() {
    let no_number = || Error::ParseIntErrror(IntErrorKind::Empty);
    let up = |factor: Error| seq(seq(seq(seq(seq(factor)))));
    // nothing between the parentheses
    let inner = up(seq(alt(no_number(), seq(seq(seq(seq(Error::ParseCharError)))))));
    assert_eq!(parser("()"), Err(up(seq(alt(no_number(), seq(seq(seq(inner))))))));
    // the closing parenthesis is missing
    assert_eq!(parser("(1"), Err(up(seq(alt(no_number(), seq(Error::ParseCharError))))));
    // an integer too large and no parenthesis
    let too_large = Error::ParseIntErrror(IntErrorKind::PosOverflow);
    assert_eq!(
        parser("99999999999999999999"),
        Err(up(seq(alt(too_large, seq(seq(seq(seq(Error::ParseCharError))))))))
    );
    assert!(parser("").is_err());
}

#[test]
fn trees() {
    let number = |n: i64| Factor::Number(Literal::Int(n));
    let (rest, tree) = parser("1-2-3").unwrap();
    assert_eq!(rest, "");
    assert_eq!(
        tree,
        Expression::Sub(
            Term::Exponent(Exponent::Factor(number(1))),
            Box::new(Expression::Sub(
                Term::Exponent(Exponent::Factor(number(2))),
                Box::new(Expression::Term(Term::Exponent(Exponent::Factor(number(3))))),
            )),
        )
    );
    let (rest, tree) = parser("(1.5)^2/3 x").unwrap();
    assert_eq!(rest, " x");
    assert_eq!(
        tree,
        Expression::Term(Term::Div(
            Exponent::Power(
                Factor::Scope(Box::new(Expression::Term(Term::Exponent(Exponent::Factor(
                    Factor::Number(Literal::Decimal("1.5".to_string()))
                ))))),
                Box::new(Exponent::Factor(number(2))),
            ),
            Box::new(Term::Exponent(Exponent::Factor(number(3)))),
        ))
    );
}

#[test]
fn each_rule_can_be_used_alone() {
    assert_eq!(
        Factor::new(" 12*3"),
        Ok(("*3", Factor::Number(Literal::Int(12))))
    );
    let (rest, x) = Exponent::new("2^3*4").unwrap();
    assert_eq!(rest, "*4");
    assert_eq!(x.calc::<F64>(), Ok(whole(8)));
    let (rest, t) = Term::new("2*3+4").unwrap();
    assert_eq!(rest, "+4");
    assert_eq!(t.calc::<F64>(), Ok(whole(6)));
    assert_eq!(t.fold(whole(10), number::number::Operator::Sub), Ok(whole(24)));
    let (_, f) = Factor::new("(1+1)").unwrap();
    assert_eq!(f.calc::<F64>(), Ok(whole(2)));
    let (_, e) = Expression::new("3-1").unwrap();
    assert_eq!(e.fold(whole(10), number::number::Operator::Sub), Ok(whole(6)));
}

#[test]
fn integer_overflow_wraps_around() {
    assert_eq!(value_of("9223372036854775807+1"), whole(i64::MIN));
}

#[test]
fn what_the_grammar_leaves_over_is_a_suffix() {
    let inputs = [
        "1", " 1 ", "1+2 rest", "(1+2", "(1+2)*", "2^3^", "1.5.5", "1 / 0 x", "((3))-", "a",
    ];
    for input in inputs {
        if let Ok((rest, _)) = parser(input) {
            assert!(input.ends_with(rest));
            assert!(rest.len() < input.len());
        }
        if let Ok((rest, _)) = parse_and_calc::<F64>(input) {
            assert!(input.ends_with(rest));
        }
    }
}

#[test]
fn error_messages() {
    let error = parser("(1").unwrap_err();
    assert_eq!(
        error.message(),
        "CombinatorParseError:\nA:\nCombinatorParseError:\nA:\nCombinatorParseError:\nA:\n\
         CombinatorParseError:\nA:\nCombinatorParseError:\nA:\nCombinatorParseError:\nA:\n\
         CombinatorParseError:\nA:\ncannot parse integer from empty string\nB:\n\
         CombinatorParseError:\nA:\nParseCharError"
    );
    assert_eq!(
        parse_and_calc::<F64>("1/0").unwrap_err().message(),
        "NumberZeroDivError"
    );
    assert_eq!(
        Error::ParseIntErrror(IntErrorKind::PosOverflow).message(),
        "number too large to fit in target type"
    );
    assert_eq!(Error::ParseStringError.message(), "ParseStringError");
    assert_eq!(
        Error::ParseFloatError(my_parser_project::parser::FloatErrorKind::Invalid).message(),
        "invalid float literal"
    );
    assert_eq!(
        Error::ParseFloatError(my_parser_project::parser::FloatErrorKind::Empty).message(),
        "cannot parse float from empty string"
    );
}

// ---- the calculator for the sum of two numbers ----

#[test]
fn keisan_test1() {
    let base = "1+1";
    assert_eq!(keisan::parser::<F64>(base), Ok(("", whole(2))));
}

#[test]
fn keisan_test2() {
    let base = "2 + 4";
    assert_eq!(keisan::parser::<F64>(base), Ok(("", whole(6))));
}

#[test]
fn keisan_test3() {
    let base = "aa1+1ffad";
    assert_eq!(keisan::parser::<F64>(base), Err(keisan::Error::ParseError("aa1+1ffad")));
}

#[test]
fn keisan_test4() {
    let base = "1 + a 1";
    assert_eq!(keisan::parser::<F64>(base), Err(keisan::Error::ParseError(" a 1")));
}

#[test]
fn keisan_test5() {
    let base = "1 + 1aaaaaa";
    assert_eq!(keisan::parser::<F64>(base), Ok(("aaaaaa", whole(2))));
}

#[test]
fn sum_of_two_numbers() {
    assert_eq!(keisan::parser::<F64>(" 1.5 + 2 x"), Ok((" x", decimal(3.5))));
    assert_eq!(keisan::parser::<F64>("1.5+.25"), Ok(("", decimal(1.75))));
    assert_eq!(keisan::parser::<F64>("1 - 2"), Err(keisan::Error::ParseError(" - 2")));
    assert_eq!(keisan::parser::<F64>("  "), Err(keisan::Error::ParseError("  ")));
    assert_eq!(keisan::parser::<F64>("1+2+3"), Ok(("+3", whole(3))));
}
