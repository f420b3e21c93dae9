use my_parser_project::parser::base;
use my_parser_project::parser::combinator::map as pair_map;
use my_parser_project::parser::combinator::map_parse;
use my_parser_project::parser::combinator::{
    and, and_a, and_b, cat, cat_a, cat_b, join, not, or, or_ab, sub, sub_uncheck, OrResult,
    SubResult,
};
use my_parser_project::parser::str_parser;
use my_parser_project::parser::str_parser::ErrorKind;
use my_parser_project::parser::{Error, IntErrorKind};

// ---- sequence ----

#[test]
fn and_parse_test2() {
    let base = "123+abc";
    let parser = and(base::num, base::char('+'));
    assert_eq!(parser(base), Ok(("abc", (123, ()))))
}

#[test]
fn and_parse_test3() {
    let base = "   123+abc";
    let parser = and_a(and_b(base::trimer, base::num), base::char('+'));
    assert_eq!(parser(base), Ok(("abc", 123)))
}

#[test]
fn and_parse_test4() {
    let base = "   +  123+abc";
    let parser = and_a(
        and_b(and_b(and_b(base::trimer, base::char('+')), base::trimer), base::num),
        base::char('+'),
    );
    assert_eq!(parser(base), Ok(("abc", 123)))
}

#[test]
fn and_parse_test5() {
    let base = "+-123\n-123+\n+abc";
    let parser = and_a(
        and(
            and_b(and_b(base::char('+'), base::char('-')), base::num),
            and_a(and_b(and_b(base::trimer, base::char('-')), base::num), base::char('+')),
        ),
        and(base::trimer, base::char('+')),
    );
    assert_eq!(parser(base), Ok(("abc", (123, 123))))
}

#[test]
fn and_parse_test6() {
    let base = "( 123 )";
    let parser = and_a(
        and_a(and_b(and_b(base::char('('), base::trimer), base::num), base::trimer),
        base::char(')'),
    );
    assert_eq!(parser(base), Ok(("", 123)));
}

#[test]
fn sequence_wraps_the_error_of_the_part_that_failed() {
    let parser = and(base::num, base::char('+'));
    assert_eq!(
        parser("x"),
        Err(Error::CombinatorParseError(
            Box::new(Error::ParseIntErrror(IntErrorKind::Empty)),
            None
        ))
    );
    assert_eq!(
        parser("1x"),
        Err(Error::CombinatorParseError(Box::new(Error::ParseCharError), None))
    );
    let first = and_a(base::num, base::char('+'));
    assert_eq!(
        first("1x"),
        Err(Error::CombinatorParseError(Box::new(Error::ParseCharError), None))
    );
    let second = and_b(base::num, base::char('+'));
    assert_eq!(
        second("x"),
        Err(Error::CombinatorParseError(
            Box::new(Error::ParseIntErrror(IntErrorKind::Empty)),
            None
        ))
    );
    assert_eq!(second("1+x"), Ok(("x", ())));
}

#[test]
fn join_test1() {
    let base = "123+abc";
    let parser = join(base::num, base::char('+'));
    assert_eq!(parser(base), Ok(("abc", (123, ()))))
}

#[test]
fn join_hands_the_error_on_as_it_is() {
    let parser = join(base::num, base::char('+'));
    assert_eq!(parser("x"), Err(Error::ParseIntErrror(IntErrorKind::Empty)));
    assert_eq!(parser("1x"), Err(Error::ParseCharError));
}

// ---- alternative ----

#[test]
fn or_parse_test1() {
    let base = ".!abc";
    let parser = or(base::char('.'), base::char('!'));
    assert_eq!(parser(base), Ok(("!abc", ())));
}

#[test]
fn or_parse_test2() {
    let base = ".!abc";
    let parser = or(base::char('!'), base::char('.'));
    assert_eq!(parser(base), Ok(("!abc", ())));
}

#[test]
fn or_parse_test3() {
    let base = "cdefg";
    let parser = or(or(base::char('a'), base::char('b')), base::char('c'));
    assert_eq!(parser(base), Ok(("defg", ())))
}

#[test]
fn or_parse_test4() {
    let base1 = "+123abc";
    let base2 = "-123abc";
    let parser = map_parse::map(
        and(or_ab(base::char('+'), base::char('-')), base::num),
        |(o, n)| match o {
            OrResult::A(_) => n,
            OrResult::B(_) => 0 - n,
        },
    );
    assert_eq!(parser(base1), Ok(("abc", 123)));
    assert_eq!(parser(base2), Ok(("abc", -123)));
}

#[test]
fn alternative_of_two_failures_holds_both_errors() {
    let parser = or(base::num, map_parse::map(base::char('x'), |_| 0));
    let error = parser("abc").unwrap_err();
    assert_eq!(
        error,
        Error::CombinatorParseError(
            Box::new(Error::ParseIntErrror(IntErrorKind::Empty)),
            Some(Box::new(Error::ParseCharError))
        )
    );
    assert_eq!(
        error.division_combinator_parse_error(),
        Some((
            Error::CombinatorParseError(
                Box::new(Error::ParseIntErrror(IntErrorKind::Empty)),
                None
            ),
            Error::CombinatorParseError(Box::new(Error::ParseCharError), None),
        ))
    );
    let tagged = or_ab(base::num, base::char('x'));
    assert_eq!(
        tagged("abc"),
        Err(Error::CombinatorParseError(
            Box::new(Error::ParseIntErrror(IntErrorKind::Empty)),
            Some(Box::new(Error::ParseCharError))
        ))
    );
    assert_eq!(tagged("xabc"), Ok(("abc", OrResult::B(()))));
    assert_eq!(tagged("7abc"), Ok(("abc", OrResult::A(7))));
}

#[test]
fn other_errors_have_nothing_to_split() {
    assert_eq!(Error::ParseCharError.division_combinator_parse_error(), None);
    assert_eq!(
        Error::CombinatorParseError(Box::new(Error::ParseCharError), None)
            .division_combinator_parse_error(),
        None
    );
}

// The first branch consumes "12" and then fails; the second branch must see
// the text from its start.
#[test]
fn alternative_backtracks() {
    let first = and_a(base::num, base::char('+'));
    let second = and_a(base::num, base::char('-'));
    let parser = or(first, second);
    assert_eq!(parser("12-rest"), Ok(("rest", 12)));
    let tagged = or_ab(and_a(base::num, base::char('+')), base::none);
    assert_eq!(tagged("12-rest"), Ok(("12-rest", OrResult::B(()))));
}

// ---- map ----

#[test]
fn map_parse_test1() {
    let base = "1+1ans";
    let parser = map_parse::map(and(and(base::num, base::char('+')), base::num), |((a, _), b)| {
        a + b
    });
    assert_eq!(parser(base), Ok(("ans", 2)))
}

#[test]
fn map_passes_a_failure_through() {
    let parser = map_parse::map(base::num, |n| n * 2);
    assert_eq!(parser("x"), Err(Error::ParseIntErrror(IntErrorKind::Empty)));
    assert_eq!(parser("21x"), Ok(("x", 42)));
}

#[test]
fn map_error_change_test() {
    let base = "x123";
    let parser = pair_map::map(str_parser::num, |x| x.unwrap_or(0));
    let (i, r1) = parser(base);
    assert_eq!(r1, 0);
    assert_eq!(i, "x123");
}

#[test]
fn map_doubles_the_number() {
    let parser = pair_map::map(str_parser::num, |x| x.map(|i| i * 2));
    let (i, r1) = parser("10x");
    assert_eq!(r1, Ok(20));
    assert_eq!(i, "x");
}

// ---- the combinators of the parsers that always hand the text back ----

#[test]
fn cat_success_test() {
    let base = "*123";
    let parser = cat(str_parser::char('*'), str_parser::num);
    let (i, (r1, r2)) = parser(base);
    assert_eq!(r1, Ok('*'));
    assert_eq!(r2, Ok(123));
    assert_eq!(i, "");
}

#[test]
fn cat_a_success_test() {
    let base = "*123";
    let parser = cat_a(str_parser::char('*'), str_parser::num);
    let (i, r1) = parser(base);
    assert_eq!(r1, Ok('*'));
    assert_eq!(i, "");
}

#[test]
fn cat_b_success_test() {
    let base = "*123";
    let parser = cat_b(str_parser::char('*'), str_parser::num);
    let (i, r1) = parser(base);
    assert_eq!(r1, Ok(123));
    assert_eq!(i, "");
}

#[test]
fn cat_goes_on_behind_a_failure() {
    let parser = cat(str_parser::char('-'), str_parser::num);
    let (i, (r1, r2)) = parser("12x");
    assert_eq!(r1.unwrap_err().kind(), &ErrorKind::ParseCharError);
    assert_eq!(r2, Ok(12));
    assert_eq!(i, "x");
    let parser = cat(str_parser::char('-'), str_parser::char('*'));
    let (i, (r1, r2)) = parser("+-abc");
    assert_eq!(r1.unwrap_err().kind(), &ErrorKind::ParseCharError);
    assert_eq!(r2.unwrap_err().kind(), &ErrorKind::ParseCharError);
    assert_eq!(i, "+-abc");
}

#[test]
fn sub_success_a() {
    let input = "*123";
    let parser = sub(str_parser::char('*'), str_parser::char('+'));
    let (_, result) = parser(input);
    assert_eq!(result, Ok(SubResult::Main('*')))
}

#[test]
fn sub_success_b() {
    let input = "+123";
    let parser = sub(str_parser::char('*'), str_parser::char('+'));
    let (_, result) = parser(input);
    assert_eq!(result, Ok(SubResult::Sub('+')))
}

#[test]
fn sub_failure() {
    let input = "a123";
    let parser = sub(str_parser::char('*'), str_parser::char('+'));
    let (_, result) = parser(input);
    assert!(matches!(result, Err(_)))
}

#[test]
fn sub_failure_holds_both_errors_and_the_text() {
    let parser = sub(str_parser::char('*'), str_parser::num);
    let (rest, result) = parser("a123");
    assert_eq!(rest, "a123");
    let (e1, e2) = result.unwrap_err();
    assert_eq!(e1.kind(), &ErrorKind::ParseCharError);
    assert_eq!(e2.kind(), &ErrorKind::ParseNumError(IntErrorKind::Empty));
    assert_eq!(parser("*1"), ("1", Ok(SubResult::Main('*'))));
    assert_eq!(parser("17*"), ("*", Ok(SubResult::Sub(17))));
}

#[test]
fn sub_uncheck_success_a() {
    let input = "*123";
    let parser = sub_uncheck(str_parser::char('*'), str_parser::char('+'));
    let (_, result) = parser(input);
    assert_eq!(result, SubResult::Main('*'))
}

#[test]
fn sub_uncheck_success_b() {
    let input = "+123";
    let parser = sub_uncheck(str_parser::char('*'), str_parser::char('+'));
    let (_, result) = parser(input);
    assert_eq!(result, SubResult::Sub(Ok('+')))
}

#[test]
fn sub_uncheck_failure() {
    let input = "a123";
    let parser = sub_uncheck(str_parser::char('*'), str_parser::char('+'));
    let (_, result) = parser(input);
    assert!(matches!(result, SubResult::Sub(Err(_))))
}

#[test]
fn sub_uncheck_with_none() {
    let parser = sub_uncheck(str_parser::num, str_parser::none);
    assert_eq!(parser("abc"), ("abc", SubResult::Sub(())));
    assert_eq!(parser("123abc"), ("abc", SubResult::Main(123)));
}

// ---- not ----

#[test]
fn char_parser() {
    let patterns = [
        ("abc+", ("+", "abc")),
        ("+abc", ("+abc", "")),
        ("+", ("+", "")),
        ("abc", ("", "abc")),
    ];
    let parser = not(str_parser::char('+'));
    for (input, result) in patterns {
        assert_eq!(parser(input), result);
    }
}

#[test]
fn num_parser() {
    let patterns = [
        ("abc123", ("123", "abc")),
        ("123abc", ("123abc", "")),
        ("123", ("123", "")),
        ("abc", ("", "abc")),
    ];
    let parser = not(str_parser::num);
    for (input, result) in patterns {
        assert_eq!(parser(input), result);
    }
}

#[test]
fn string_parser() {
    let patterns = [
        ("123abc", ("abc", "123")),
        ("abc123", ("abc123", "")),
        ("abc", ("abc", "")),
        ("123", ("", "123")),
    ];
    let parser = not(str_parser::string(String::from("abc")));
    for (input, result) in patterns {
        assert_eq!(parser(input), result);
    }
}

#[test]
fn simple() {
    let input = "abc123";
    let parser = not(str_parser::num);
    let (remain, result) = parser(input);
    assert_eq!(result, "abc");
    assert_eq!(remain, "123");
}

#[test]
fn zero_length_remain() {
    let input = "123";
    let parser = not(str_parser::num);
    let (remain, result) = parser(input);
    assert_eq!(result, "");
    assert_eq!(remain, "123");
}

#[test]
fn input_parser_always_fail() {
    let input = "abc";
    let parser = not(str_parser::num);
    let (remain, result) = parser(input);
    println!("{}", result);
    assert_eq!(result, "abc");
    assert_eq!(remain, "");
}

#[test]
fn not_steps_over_characters_of_several_bytes() {
    let parser = not(str_parser::num);
    assert_eq!(parser("äöü42!"), ("42!", "äöü"));
    assert_eq!(parser(""), ("", ""));
    assert_eq!(parser("äöü"), ("", "äöü"));
}

// ---- what is left over is a suffix of what was given ----

#[test]
fn what_is_left_over_is_a_suffix() {
    let inputs = [
        "", " ", "12", "12+3", "  12 + 3", "+12", "abc", "1+", "++", "été", " \t\n+x", "1.5",
    ];
    let plus = base::char('+');
    let sequence = and(base::trimer, and_a(base::num, base::char('+')));
    let choice = or(and_b(base::char('+'), base::num), base::num);
    let tagged = or_ab(base::char('+'), base::trim_and(base::num));
    let mapped = map_parse::map(join(base::trimer, base::num), |(_, n)| n + 1);
    let word = base::string("12".to_string());
    for input in inputs {
        if let Ok((rest, _)) = plus(input) {
            assert!(input.ends_with(rest));
        }
        if let Ok((rest, _)) = sequence(input) {
            assert!(input.ends_with(rest));
        }
        if let Ok((rest, _)) = choice(input) {
            assert!(input.ends_with(rest));
        }
        if let Ok((rest, _)) = tagged(input) {
            assert!(input.ends_with(rest));
        }
        if let Ok((rest, _)) = mapped(input) {
            assert!(input.ends_with(rest));
        }
        if let Ok((rest, _)) = word(input) {
            assert!(input.ends_with(rest));
        }
        if let Ok((rest, _)) = base::num(input) {
            assert!(input.ends_with(rest));
        }
        if let Ok((rest, _)) = base::trimer(input) {
            assert!(input.ends_with(rest));
        }
        assert_eq!(base::none(input), Ok((input, ())));
    }
}

#[test]
fn the_text_handed_back_is_a_suffix() {
    let inputs = ["", " ", "12", "*12", "  *12", "abc", "été12", "12été"];
    let joined = cat(str_parser::trimer, cat_b(str_parser::char('*'), str_parser::num));
    let first = cat_a(str_parser::num, str_parser::char('*'));
    let either = sub(str_parser::char('*'), str_parser::num);
    let unchecked = sub_uncheck(str_parser::num, str_parser::trimer);
    let mapped = pair_map::map(str_parser::num, |r| r.is_ok());
    let until = not(str_parser::num);
    for input in inputs {
        assert!(input.ends_with(joined(input).0));
        assert!(input.ends_with(first(input).0));
        assert!(input.ends_with(either(input).0));
        assert!(input.ends_with(unchecked(input).0));
        assert!(input.ends_with(mapped(input).0));
        let (rest, before) = until(input);
        assert!(input.ends_with(rest));
        assert!(input.starts_with(before));
        assert_eq!(format!("{}{}", before, rest), input);
        assert_eq!(str_parser::none(input), (input, ()));
    }
}
