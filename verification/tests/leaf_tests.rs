use my_parser_project::number::{Float, Number};
use my_parser_project::parser::base;
use my_parser_project::parser::base::Literal;
use my_parser_project::parser::str_parser;
use my_parser_project::parser::str_parser::ErrorKind;
use my_parser_project::parser::{Error, IntErrorKind};

/// Double-precision arithmetic for the numbers under test.
#[derive(Debug, Clone, Copy, PartialEq)]
struct F64(f64);

impl Float for F64 {
    fn from_int(value: i64) -> Self {
        F64(value as f64)
    }

    fn from_decimal(text: &str) -> Self {
        F64(text.parse().unwrap())
    }

    fn to_int(self) -> i64 {
        self.0 as i64
    }

    fn is_zero(self) -> bool {
        self.0 == 0.0
    }

    fn plus(self, rhs: Self) -> Self {
        F64(self.0 + rhs.0)
    }

    fn minus(self, rhs: Self) -> Self {
        F64(self.0 - rhs.0)
    }

    fn times(self, rhs: Self) -> Self {
        F64(self.0 * rhs.0)
    }

    fn over(self, rhs: Self) -> Self {
        F64(self.0 / rhs.0)
    }

    fn powf(self, rhs: Self) -> Self {
        F64(self.0.powf(rhs.0))
    }
}

fn whole(value: i64) -> Number<F64> {
    Number::Int(value)
}

fn decimal(value: f64) -> Number<F64> {
    Number::Float(F64(value))
}

// ---- the parsers that always hand the text back ----

#[test]
fn char_success_test() {
    let base = "*123";
    let parser = str_parser::char('*');
    let (rest, result) = parser(base);
    assert_eq!(rest, "123");
    assert_eq!(result, Ok('*'));
}

#[test]
fn char_dissociation_test() {
    let base = "123*";
    let parser = str_parser::char('*');
    let (rest, result) = parser(base);
    assert_eq!(rest, "123*");
    assert_eq!(result.unwrap_err().kind(), &ErrorKind::ParseCharError);
}

#[test]
fn char_of_several_bytes() {
    let parser = str_parser::char('é');
    assert_eq!(parser("été"), ("té", Ok('é')));
    let parser = base::char('é');
    assert_eq!(parser("été"), Ok(("té", ())));
}

#[test]
fn none_not_parse_test() {
    let base = "  abc";
    let (rest, _) = str_parser::none(base);
    assert_eq!(rest, "  abc");
    let (rest, _) = base::none(base).unwrap();
    assert_eq!(rest, "  abc");
}

#[test]
fn none_not_parse_test2() {
    let base = "  abc";
    let (rest, _) = str_parser::none(base);
    assert_ne!(rest, "abc");
    let (rest, _) = base::none(base).unwrap();
    assert_ne!(rest, "abc");
}

#[test]
fn none_on_empty_text() {
    assert_eq!(str_parser::none(""), ("", ()));
    assert_eq!(base::none(""), Ok(("", ())));
}

#[test]
fn num_success_test() {
    let input = "123abc";
    let (rest, result) = str_parser::num(input);
    assert_eq!(rest, "abc");
    assert_eq!(result, Ok(123));
}

#[test]
fn num_dissociation_test() {
    let input = "abc123";
    let (rest, result) = str_parser::num(input);
    assert_eq!(rest, "abc123");
    assert!(matches!(result.unwrap_err().kind(), &ErrorKind::ParseNumError(_)));
}

#[test]
fn ascii_test() {
    let mut base = String::with_capacity(10);
    let mut result_list = Vec::with_capacity(15);
    (0x0..0xFF).for_each(|b: u8| {
        base.clear();
        base.push(char::from(b));
        base.push_str("\n");
        let (_, result) = str_parser::num(&base);
        if b >= 0x30 && b < 0x3a {
            result_list.push(result.unwrap());
        } else {
            assert!(matches!(result, Err(_)));
        }
    });
    println!("{:?}", result_list);
    assert_eq!(result_list, vec![0, 1, 2, 3, 4, 5, 6, 7, 8, 9]);
}

#[test]
fn num_reads_a_text_of_digits_only() {
    assert_eq!(str_parser::num("123"), ("", Ok(123)));
    assert_eq!(base::num("123"), Ok(("", 123)));
    assert_eq!(base::num("007x"), Ok(("x", 7)));
}

#[test]
fn num_causes() {
    let (rest, result) = str_parser::num("");
    assert_eq!(rest, "");
    assert_eq!(result.unwrap_err().kind(), &ErrorKind::ParseNumError(IntErrorKind::Empty));
    let (rest, result) = str_parser::num("18446744073709551616z");
    assert_eq!(rest, "18446744073709551616z");
    assert_eq!(result.unwrap_err().kind(), &ErrorKind::ParseNumError(IntErrorKind::PosOverflow));
    assert_eq!(str_parser::num("18446744073709551615z"), ("z", Ok(u64::MAX)));
    assert_eq!(base::num(""), Err(Error::ParseIntErrror(IntErrorKind::Empty)));
    assert_eq!(base::num("9223372036854775807"), Ok(("", i64::MAX)));
    assert_eq!(
        base::num("9223372036854775808"),
        Err(Error::ParseIntErrror(IntErrorKind::PosOverflow))
    );
    assert_eq!(
        base::num("99999999999999999999999999"),
        Err(Error::ParseIntErrror(IntErrorKind::PosOverflow))
    );
}

#[test]
fn num_takes_ascii_digits_only() {
    // U+0663 is a digit, but not one of 0 to 9
    assert!(base::num("\u{663}").is_err());
    assert_eq!(base::num("1\u{663}"), Ok(("\u{663}", 1)));
}

#[test]
fn string_success_test() {
    let base = "+=3";
    let parser = str_parser::string("+=".to_string());
    let (rest, result) = parser(base);
    assert_eq!(rest, "3");
    assert_eq!(result, Ok("+=".to_string()));
}

#[test]
fn string_dissociation_test() {
    let base = "3+=";
    let parser = str_parser::string("+=".to_string());
    let (rest, result) = parser(base);
    assert_eq!(rest, "3+=");
    assert_eq!(result.unwrap_err().kind(), &ErrorKind::ParseStringError);
}

#[test]
fn string_in_both_forms() {
    let parser = base::string("let".to_string());
    assert_eq!(parser("let x"), Ok((" x", "let".to_string())));
    assert_eq!(parser("le"), Err(Error::ParseStringError));
    assert_eq!(parser("lot"), Err(Error::ParseStringError));
    let empty = base::string(String::new());
    assert_eq!(empty("abc"), Ok(("abc", String::new())));
    let parser = str_parser::string("été".to_string());
    assert_eq!(parser("été!"), ("!", Ok("été".to_string())));
}

#[test]
fn space_trim_test() {
    let base = "  abc";
    let (rest, _) = str_parser::trimer(base);
    assert_eq!(rest, "abc");
}

#[test]
fn tab_trim_test() {
    let base = "\tabc";
    let (rest, _) = str_parser::trimer(base);
    assert_eq!(rest, "abc");
}

#[test]
fn return_trim_test() {
    let base = "\nabc";
    let (rest, _) = str_parser::trimer(base);
    assert_eq!(rest, "abc");
}

#[test]
fn trimer_takes_every_white_space() {
    assert_eq!(base::trimer("\u{3000}\u{a0} \r\nx y"), Ok(("x y", ())));
    assert_eq!(base::trimer("x "), Ok(("x ", ())));
    assert_eq!(base::trimer("   "), Ok(("", ())));
    assert_eq!(base::trimer(""), Ok(("", ())));
    // U+200B is no white space
    assert_eq!(str_parser::trimer("\u{200b}x"), ("\u{200b}x", ()));
    let spaces = [
        '\u{9}', '\u{b}', '\u{c}', '\u{85}', '\u{1680}', '\u{2000}', '\u{200a}', '\u{2028}',
        '\u{2029}', '\u{202f}', '\u{205f}',
    ];
    for c in spaces {
        let text = format!("{}x", c);
        assert_eq!(str_parser::trimer(&text), ("x", ()));
        assert_eq!(text.trim_start(), "x");
    }
}

// ---- the parsers that fail with an error ----

#[test]
fn simple_test1() {
    let parser = base::char('/');
    assert_eq!(parser("/123"), Ok(("123", ())));
    assert_eq!(base::num("123abc"), Ok(("abc", 123)));
    assert_eq!(base::num_ex::<F64>("123abc"), Ok(("abc", whole(123))));
    let parser = base::space_trimer(base::num);
    assert_eq!(parser(" 123"), Ok(("", 123)));
}

#[test]
fn simple_test2() {
    let parser = base::char('/');
    assert_eq!(parser("abc/123"), Err(Error::ParseCharError));
    assert!(matches!(base::num("abc123"), Err(Error::ParseIntErrror(_))));
    assert!(matches!(base::num_ex::<F64>("abc123"), Err(Error::ParseIntErrror(_))));
    let parser = base::space_trimer(base::num);
    assert_eq!(parser("123abc"), Ok(("abc", 123)));
}

#[test]
fn simple_test3() {
    let parser = base::char('*');
    assert_eq!(parser("/123"), Err(Error::ParseCharError));
    assert_eq!(base::num("123.abc"), Ok((".abc", 123)));
    assert_eq!(base::num_ex::<F64>("123.abc"), Ok(("abc", decimal(123.0))));
    let parser = base::space_trimer(base::num);
    assert_eq!(parser("\t123abc"), Ok(("abc", 123)));
}

#[test]
fn simple_test4() {
    let parser = base::char(' ');
    assert_eq!(parser(""), Err(Error::ParseCharError));
    assert_eq!(base::num_ex::<F64>("123.14abc"), Ok(("abc", decimal(123.14))));
    let parser = base::space_trimer(base::num);
    assert_eq!(parser("\n123abc"), Ok(("abc", 123)));
}

#[test]
fn simple_test5() {
    assert_eq!(base::num_ex::<F64>("123"), Ok(("", whole(123))));
}

#[test]
fn simple_test6() {
    assert_eq!(base::num_ex::<F64>("123.14"), Ok(("", decimal(123.14))));
}

#[test]
fn base_test1() {
    let parser = base::char('/');
    assert_eq!(parser("/123"), Ok(("123", ())));
    assert_eq!(base::num("123abc"), Ok(("abc", 123)));
}

#[test]
fn base_test2() {
    let parser = base::char('/');
    assert_eq!(parser("abc/123"), Err(Error::ParseCharError));
    assert!(matches!(base::num("abc123"), Err(Error::ParseIntErrror(_))));
}

#[test]
fn base_test3() {
    let parser = base::char('*');
    assert_eq!(parser("/123"), Err(Error::ParseCharError));
}

#[test]
fn base_test4() {
    let parser = base::char(' ');
    assert_eq!(parser(""), Err(Error::ParseCharError));
}

#[test]
fn string_perser_test1() {
    let parser = base::char('/');
    assert_eq!(parser("/123"), Ok(("123", ())));
    assert_eq!(base::num_ex::<F64>("123abc"), Ok(("abc", whole(123))));
}

#[test]
fn string_perser_test2() {
    let parser = base::char('/');
    assert_eq!(parser("abc/123"), Err(Error::ParseCharError));
    assert!(matches!(base::num_ex::<F64>("abc123"), Err(_)));
}

#[test]
fn string_perser_test3() {
    let parser = base::char('*');
    assert_eq!(parser("/123"), Err(Error::ParseCharError));
    assert_eq!(base::num_ex::<F64>("3.14abc"), Ok(("abc", decimal(3.14))));
}

#[test]
fn string_perser_test4() {
    let parser = base::char(' ');
    assert_eq!(parser(""), Err(Error::ParseCharError));
    assert_eq!(base::num_ex::<F64>("3.14.abc"), Ok((".abc", decimal(3.14))));
}

#[test]
fn num_test1() {
    assert_eq!(base::num("123abc"), Ok(("abc", 123)));
    let parser = base::space_trimer(base::num);
    assert_eq!(parser(" 123"), Ok(("", 123)));
}

#[test]
fn num_test2() {
    assert!(matches!(base::num("abc123"), Err(Error::ParseIntErrror(_))));
    let parser = base::space_trimer(base::num);
    assert_eq!(parser("123abc"), Ok(("abc", 123)));
}

#[test]
fn num_test3() {
    assert_eq!(base::num("123.abc"), Ok((".abc", 123)));
    let parser = base::space_trimer(base::num);
    assert_eq!(parser("\t123abc"), Ok(("abc", 123)));
}

#[test]
fn num_test4() {
    let parser = base::space_trimer(base::num);
    assert_eq!(parser("\n123abc"), Ok(("abc", 123)));
}

#[test]
fn num_ex_test1() {
    assert_eq!(base::num_ex::<F64>("123abc"), Ok(("abc", whole(123))));
}

#[test]
fn num_ex_test2() {
    assert!(matches!(base::num_ex::<F64>("abc123"), Err(Error::ParseIntErrror(_))));
}

#[test]
fn num_ex_test3() {
    assert_eq!(base::num_ex::<F64>("123.abc"), Ok(("abc", decimal(123.0))));
}

#[test]
fn num_ex_test4() {
    assert_eq!(base::num_ex::<F64>("123.14abc"), Ok(("abc", decimal(123.14))));
}

#[test]
fn num_ex_test5() {
    assert_eq!(base::num_ex::<F64>("123"), Ok(("", whole(123))));
}

#[test]
fn num_ex_test6() {
    assert_eq!(base::num_ex::<F64>("123.14"), Ok(("", decimal(123.14))));
}

#[test]
fn num_ex_edges() {
    assert_eq!(base::num_ex::<F64>(".5x"), Ok(("x", decimal(0.5))));
    assert_eq!(base::num_ex::<F64>("."), Err(Error::ParseIntErrror(IntErrorKind::Empty)));
    assert_eq!(base::num_ex::<F64>(".x"), Err(Error::ParseIntErrror(IntErrorKind::Empty)));
    assert_eq!(base::num_ex::<F64>("1.2.3"), Ok((".3", decimal(1.2))));
    assert_eq!(base::num_ex::<F64>("99999999999999999999.5"), Ok(("", decimal(99999999999999999999.5))));
    assert_eq!(
        base::num_ex::<F64>("99999999999999999999"),
        Err(Error::ParseIntErrror(IntErrorKind::PosOverflow))
    );
    assert_eq!(base::num_ex::<F64>("-1"), Err(Error::ParseIntErrror(IntErrorKind::Empty)));
}

#[test]
fn literal_keeps_the_text_of_a_decimal_number() {
    assert_eq!(base::literal("12.50 "), Ok((" ", Literal::Decimal("12.50".to_string()))));
    assert_eq!(base::literal("12 "), Ok((" ", Literal::Int(12))));
    assert_eq!(base::literal("7."), Ok(("", Literal::Decimal("7.".to_string()))));
    assert_eq!(base::number_of::<F64>(&Literal::Decimal("2.5".to_string())), decimal(2.5));
    assert_eq!(base::number_of::<F64>(&Literal::Int(4)), whole(4));
}

#[test]
fn trim_and_test1() {
    let parser = base::trim_and(base::num);
    assert_eq!(parser(" 123"), Ok(("", 123)));
}

#[test]
fn trim_and_test2() {
    let parser = base::trim_and(base::num);
    assert_eq!(parser("123abc"), Ok(("abc", 123)));
}

#[test]
fn trim_and_test3() {
    let parser = base::trim_and(base::num);
    assert_eq!(parser("\t123abc"), Ok(("abc", 123)));
}

#[test]
fn trim_and_test4() {
    let parser = base::trim_and(base::num);
    assert_eq!(parser("\n123abc"), Ok(("abc", 123)));
}

#[test]
fn kind_of_a_new_error() {
    let e = str_parser::Error::new(ErrorKind::ParseStringError);
    assert_eq!(e.kind(), &ErrorKind::ParseStringError);
}

#[test]
fn messages_of_the_errors_that_hand_the_text_back() {
    let (_, result) = str_parser::num("x");
    assert_eq!(
        result.unwrap_err().message(),
        "failed parse to number\ncannot parse integer from empty string"
    );
    assert_eq!(ErrorKind::ParseCharError.message(), "failed parse to char");
    assert_eq!(
        str_parser::Error::new(ErrorKind::ParseStringError).message(),
        "failed parse to string"
    );
}
