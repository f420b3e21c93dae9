use vstd::prelude::*;
use crate::number;
use crate::number::number::Operator;
use crate::number::power::wrapping_pow;
use crate::number::{Float, Number};
use crate::parser::base::num_ex::Literal;
use crate::parser::error::Error;
use crate::parser::evaluation::{
    parse_and_calc_yields,
    exponent_evaluates,
    expression_evaluates,
    expression_folds,
    expression_head,
    factor_evaluates,
    is_step,
    term_evaluates,
    term_folds,
    term_head,
};
use crate::parser::numerical_expression::{expression_spec, Exponent, Expression, Factor, Term};

verus! {

/// What `op` makes of two integers, where that is an integer again: not for
/// a division, nor for a power with a negative exponent.
pub open spec fn integer_result(op: Operator, a: i64, b: i64) -> Option<i64> {
    match op {
        Operator::Add => Some(a.wrapping_add(b)),
        Operator::Sub => Some(a.wrapping_sub(b)),
        Operator::Mul => Some(a.wrapping_mul(b)),
        Operator::Div => None,
        Operator::Pow => if b >= 0 {
            Some(wrapping_pow(a, b as nat))
        } else {
            None
        },
    }
}

/// The value of a factor in integer arithmetic; none where the factor holds
/// a decimal number or an operation that leaves the integers.
pub open spec fn factor_integer(f: Factor<Seq<char>>) -> Option<i64>
    decreases f,
{
    match f {
        Factor::Number(Literal::Int(n)) => Some(n),
        Factor::Number(Literal::Decimal(_)) => None,
        Factor::Scope(e) => expression_integer(*e),
    }
}

/// The value of an exponent in integer arithmetic.
pub open spec fn exponent_integer(x: Exponent<Seq<char>>) -> Option<i64>
    decreases x,
{
    match x {
        Exponent::Factor(f) => factor_integer(f),
        Exponent::Power(f, e) => match (factor_integer(f), exponent_integer(*e)) {
            (Some(base), Some(power)) => integer_result(Operator::Pow, base, power),
            _ => None,
        },
    }
}

/// The value, in integer arithmetic, of going on with the term `t` from the
/// value `acc` and the operator `op`.
pub open spec fn term_integer_from(acc: i64, op: Operator, t: Term<Seq<char>>) -> Option<i64>
    decreases t,
{
    match exponent_integer(term_head(t)) {
        None => None,
        Some(head) => match integer_result(op, acc, head) {
            None => None,
            Some(left) => match t {
                Term::Exponent(_) => Some(left),
                Term::Mul(_, tail) => term_integer_from(left, Operator::Mul, *tail),
                Term::Div(_, tail) => term_integer_from(left, Operator::Div, *tail),
            },
        },
    }
}

/// The value of a term in integer arithmetic, from left to right.
pub open spec fn term_integer(t: Term<Seq<char>>) -> Option<i64>
    decreases t,
{
    match t {
        Term::Exponent(x) => exponent_integer(x),
        Term::Mul(x, tail) => match exponent_integer(x) {
            Some(head) => term_integer_from(head, Operator::Mul, *tail),
            None => None,
        },
        Term::Div(x, tail) => match exponent_integer(x) {
            Some(head) => term_integer_from(head, Operator::Div, *tail),
            None => None,
        },
    }
}

/// The value, in integer arithmetic, of going on with the expression `e`
/// from the value `acc` and the operator `op`.
pub open spec fn expression_integer_from(
    acc: i64,
    op: Operator,
    e: Expression<Seq<char>>,
) -> Option<i64>
    decreases e,
{
    match term_integer(expression_head(e)) {
        None => None,
        Some(head) => match integer_result(op, acc, head) {
            None => None,
            Some(left) => match e {
                Expression::Term(_) => Some(left),
                Expression::Add(_, tail) => expression_integer_from(left, Operator::Add, *tail),
                Expression::Sub(_, tail) => expression_integer_from(left, Operator::Sub, *tail),
            },
        },
    }
}

/// The value of an expression in integer arithmetic, from left to right:
/// `10-3-2` is `(10-3)-2`.
pub open spec fn expression_integer(e: Expression<Seq<char>>) -> Option<i64>
    decreases e,
{
    match e {
        Expression::Term(t) => term_integer(t),
        Expression::Add(t, tail) => match term_integer(t) {
            Some(head) => expression_integer_from(head, Operator::Add, *tail),
            None => None,
        },
        Expression::Sub(t, tail) => match term_integer(t) {
            Some(head) => expression_integer_from(head, Operator::Sub, *tail),
            None => None,
        },
    }
}

/// An operation on two integers whose result is an integer has that result,
/// whatever the floating-point arithmetic is.
pub proof fn lemma_integer_result<F: Float>(
    op: Operator,
    a: i64,
    b: i64,
    out: Result<Number<F>, number::Error>,
)
    requires
        Number::<F>::Int(a).yields(op, Number::Int(b), out),
        integer_result(op, a, b) is Some,
    ensures
        out == Ok::<Number<F>, number::Error>(Number::Int(integer_result(op, a, b)->Some_0)),
{
}

/// A factor that has a value in integer arithmetic evaluates to that value
/// and to nothing else.
pub proof fn lemma_factor_integer<F: Float>(
    f: Factor<Seq<char>>,
    out: Result<Number<F>, number::Error>,
)
    requires
        factor_evaluates(f, out),
        factor_integer(f) is Some,
    ensures
        out == Ok::<Number<F>, number::Error>(Number::Int(factor_integer(f)->Some_0)),
    decreases f,
{
    match f {
        Factor::Number(_) => {},
        Factor::Scope(e) => lemma_expression_integer(*e, out),
    }
}

/// An exponent that has a value in integer arithmetic evaluates to that
/// value and to nothing else.
pub proof fn lemma_exponent_integer<F: Float>(
    x: Exponent<Seq<char>>,
    out: Result<Number<F>, number::Error>,
)
    requires
        exponent_evaluates(x, out),
        exponent_integer(x) is Some,
    ensures
        out == Ok::<Number<F>, number::Error>(Number::Int(exponent_integer(x)->Some_0)),
    decreases x,
{
    match x {
        Exponent::Factor(f) => lemma_factor_integer(f, out),
        Exponent::Power(f, e) => {
            let base = choose|base: Result<Number<F>, number::Error>| #[trigger]
                is_step(base) && factor_evaluates(f, base) && match base {
                    Err(err) => out == Err::<Number<F>, number::Error>(err),
                    Ok(b) => exists|power: Result<Number<F>, number::Error>| #[trigger]
                        is_step(power) && exponent_evaluates(*e, power) && match power {
                            Err(err) => out == Err::<Number<F>, number::Error>(err),
                            Ok(p) => b.yields(Operator::Pow, p, out),
                        },
                };
            lemma_factor_integer(f, base);
            let b = base->Ok_0;
            let power = choose|power: Result<Number<F>, number::Error>| #[trigger]
                is_step(power) && exponent_evaluates(*e, power) && match power {
                    Err(err) => out == Err::<Number<F>, number::Error>(err),
                    Ok(p) => b.yields(Operator::Pow, p, out),
                };
            lemma_exponent_integer(*e, power);
            lemma_integer_result(Operator::Pow, b->Int_0, power->Ok_0->Int_0, out);
        },
    }
}

/// Going on with a term in integer arithmetic has one outcome.
pub proof fn lemma_term_integer_from<F: Float>(
    acc: i64,
    op: Operator,
    t: Term<Seq<char>>,
    out: Result<Number<F>, number::Error>,
)
    requires
        term_folds(Number::<F>::Int(acc), op, t, out),
        term_integer_from(acc, op, t) is Some,
    ensures
        out == Ok::<Number<F>, number::Error>(Number::Int(term_integer_from(acc, op, t)->Some_0)),
    decreases t,
{
    let start = Number::<F>::Int(acc);
    let head = choose|head: Result<Number<F>, number::Error>| #[trigger]
        is_step(head) && exponent_evaluates(term_head(t), head) && match head {
            Err(err) => out == Err::<Number<F>, number::Error>(err),
            Ok(n) => match t {
                Term::Exponent(_) => start.yields(op, n, out),
                Term::Mul(_, tail) => exists|left: Result<Number<F>, number::Error>| #[trigger]
                    start.yields(op, n, left) && match left {
                        Err(err) => out == Err::<Number<F>, number::Error>(err),
                        Ok(m) => term_folds(m, Operator::Mul, *tail, out),
                    },
                Term::Div(_, tail) => exists|left: Result<Number<F>, number::Error>| #[trigger]
                    start.yields(op, n, left) && match left {
                        Err(err) => out == Err::<Number<F>, number::Error>(err),
                        Ok(m) => term_folds(m, Operator::Div, *tail, out),
                    },
            },
        };
    lemma_exponent_integer(term_head(t), head);
    let n = head->Ok_0;
    let h = n->Int_0;
    match t {
        Term::Exponent(_) => lemma_integer_result(op, acc, h, out),
        Term::Mul(_, tail) => {
            let left = choose|left: Result<Number<F>, number::Error>| #[trigger]
                start.yields(op, n, left) && match left {
                    Err(err) => out == Err::<Number<F>, number::Error>(err),
                    Ok(m) => term_folds(m, Operator::Mul, *tail, out),
                };
            lemma_integer_result(op, acc, h, left);
            lemma_term_integer_from(left->Ok_0->Int_0, Operator::Mul, *tail, out);
        },
        Term::Div(_, tail) => {
            let left = choose|left: Result<Number<F>, number::Error>| #[trigger]
                start.yields(op, n, left) && match left {
                    Err(err) => out == Err::<Number<F>, number::Error>(err),
                    Ok(m) => term_folds(m, Operator::Div, *tail, out),
                };
            lemma_integer_result(op, acc, h, left);
            lemma_term_integer_from(left->Ok_0->Int_0, Operator::Div, *tail, out);
        },
    }
}

/// A term that has a value in integer arithmetic evaluates to that value
/// and to nothing else.
pub proof fn lemma_term_integer<F: Float>(
    t: Term<Seq<char>>,
    out: Result<Number<F>, number::Error>,
)
    requires
        term_evaluates(t, out),
        term_integer(t) is Some,
    ensures
        out == Ok::<Number<F>, number::Error>(Number::Int(term_integer(t)->Some_0)),
    decreases t,
{
    match t {
        Term::Exponent(x) => lemma_exponent_integer(x, out),
        Term::Mul(x, tail) => {
            let head = choose|head: Result<Number<F>, number::Error>| #[trigger]
                is_step(head) && exponent_evaluates(x, head) && match head {
                    Err(err) => out == Err::<Number<F>, number::Error>(err),
                    Ok(n) => term_folds(n, Operator::Mul, *tail, out),
                };
            lemma_exponent_integer(x, head);
            lemma_term_integer_from(head->Ok_0->Int_0, Operator::Mul, *tail, out);
        },
        Term::Div(x, tail) => {
            let head = choose|head: Result<Number<F>, number::Error>| #[trigger]
                is_step(head) && exponent_evaluates(x, head) && match head {
                    Err(err) => out == Err::<Number<F>, number::Error>(err),
                    Ok(n) => term_folds(n, Operator::Div, *tail, out),
                };
            lemma_exponent_integer(x, head);
            lemma_term_integer_from(head->Ok_0->Int_0, Operator::Div, *tail, out);
        },
    }
}

/// Going on with an expression in integer arithmetic has one outcome.
pub proof fn lemma_expression_integer_from<F: Float>(
    acc: i64,
    op: Operator,
    e: Expression<Seq<char>>,
    out: Result<Number<F>, number::Error>,
)
    requires
        expression_folds(Number::<F>::Int(acc), op, e, out),
        expression_integer_from(acc, op, e) is Some,
    ensures
        out == Ok::<Number<F>, number::Error>(
            Number::Int(expression_integer_from(acc, op, e)->Some_0),
        ),
    decreases e,
{
    let start = Number::<F>::Int(acc);
    let head = choose|head: Result<Number<F>, number::Error>| #[trigger]
        is_step(head) && term_evaluates(expression_head(e), head) && match head {
            Err(err) => out == Err::<Number<F>, number::Error>(err),
            Ok(n) => match e {
                Expression::Term(_) => start.yields(op, n, out),
                Expression::Add(_, tail) => exists|left: Result<Number<F>, number::Error>| #[trigger]
                    start.yields(op, n, left) && match left {
                        Err(err) => out == Err::<Number<F>, number::Error>(err),
                        Ok(m) => expression_folds(m, Operator::Add, *tail, out),
                    },
                Expression::Sub(_, tail) => exists|left: Result<Number<F>, number::Error>| #[trigger]
                    start.yields(op, n, left) && match left {
                        Err(err) => out == Err::<Number<F>, number::Error>(err),
                        Ok(m) => expression_folds(m, Operator::Sub, *tail, out),
                    },
            },
        };
    lemma_term_integer(expression_head(e), head);
    let n = head->Ok_0;
    let h = n->Int_0;
    match e {
        Expression::Term(_) => lemma_integer_result(op, acc, h, out),
        Expression::Add(_, tail) => {
            let left = choose|left: Result<Number<F>, number::Error>| #[trigger]
                start.yields(op, n, left) && match left {
                    Err(err) => out == Err::<Number<F>, number::Error>(err),
                    Ok(m) => expression_folds(m, Operator::Add, *tail, out),
                };
            lemma_integer_result(op, acc, h, left);
            lemma_expression_integer_from(left->Ok_0->Int_0, Operator::Add, *tail, out);
        },
        Expression::Sub(_, tail) => {
            let left = choose|left: Result<Number<F>, number::Error>| #[trigger]
                start.yields(op, n, left) && match left {
                    Err(err) => out == Err::<Number<F>, number::Error>(err),
                    Ok(m) => expression_folds(m, Operator::Sub, *tail, out),
                };
            lemma_integer_result(op, acc, h, left);
            lemma_expression_integer_from(left->Ok_0->Int_0, Operator::Sub, *tail, out);
        },
    }
}

/// An expression that has a value in integer arithmetic evaluates to that
/// value and to nothing else: on integers the evaluation is ordinary
/// arithmetic from left to right, with powers from right to left, and the
/// floating-point arithmetic has no say in it.
pub proof fn lemma_expression_integer<F: Float>(
    e: Expression<Seq<char>>,
    out: Result<Number<F>, number::Error>,
)
    requires
        expression_evaluates(e, out),
        expression_integer(e) is Some,
    ensures
        out == Ok::<Number<F>, number::Error>(Number::Int(expression_integer(e)->Some_0)),
    decreases e,
{
    match e {
        Expression::Term(t) => lemma_term_integer(t, out),
        Expression::Add(t, tail) => {
            let head = choose|head: Result<Number<F>, number::Error>| #[trigger]
                is_step(head) && term_evaluates(t, head) && match head {
                    Err(err) => out == Err::<Number<F>, number::Error>(err),
                    Ok(n) => expression_folds(n, Operator::Add, *tail, out),
                };
            lemma_term_integer(t, head);
            lemma_expression_integer_from(head->Ok_0->Int_0, Operator::Add, *tail, out);
        },
        Expression::Sub(t, tail) => {
            let head = choose|head: Result<Number<F>, number::Error>| #[trigger]
                is_step(head) && term_evaluates(t, head) && match head {
                    Err(err) => out == Err::<Number<F>, number::Error>(err),
                    Ok(n) => expression_folds(n, Operator::Sub, *tail, out),
                };
            lemma_term_integer(t, head);
            lemma_expression_integer_from(head->Ok_0->Int_0, Operator::Sub, *tail, out);
        },
    }
}

/// Parsing and evaluating a text whose expression has a value in integer
/// arithmetic hands back that value and the text behind the expression.
pub proof fn lemma_parse_and_calc_integer<'a, F: Float>(
    i: Seq<char>,
    o: Result<(&'a str, Number<F>), Error>,
)
    requires
        parse_and_calc_yields(i, o),
        expression_spec(i) matches Ok((_, tree)) && expression_integer(tree) is Some,
    ensures
        o matches Ok((rest, n)) && rest@ == expression_spec(i)->Ok_0.0 && n == Number::<F>::Int(
            expression_integer(expression_spec(i)->Ok_0.1)->Some_0,
        ),
{
    let tree = expression_spec(i)->Ok_0.1;
    let rest = expression_spec(i)->Ok_0.0;
    let value = choose|value: Result<Number<F>, number::Error>| #[trigger]
        is_step(value) && expression_evaluates(tree, value) && match value {
            Err(err) => o == Err::<(&'a str, Number<F>), Error>(Error::NumberError(err)),
            Ok(n) => o matches Ok((left, m)) && left@ == rest && m == n,
        };
    lemma_expression_integer(tree, value);
}

} // verus!
