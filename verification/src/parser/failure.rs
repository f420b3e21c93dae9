use vstd::prelude::*;
use crate::number;
use crate::number::number::Operator;
use crate::number::{ErrorKind, Float, Number};
use crate::parser::evaluation::{
    exponent_evaluates,
    expression_evaluates,
    expression_folds,
    expression_head,
    factor_evaluates,
    is_step,
    term_evaluates,
    term_folds,
    term_head,
};
use crate::parser::numerical_expression::{Exponent, Expression, Factor, Term};

verus! {

/// The one failure of an evaluation.
pub open spec fn zero_division() -> number::Error {
    number::Error::of(ErrorKind::ZeroDiv)
}

/// An operation fails only where it is a division, and then by a division
/// by zero.
pub proof fn lemma_operation_fails<F: Float>(
    x: Number<F>,
    op: Operator,
    y: Number<F>,
    err: number::Error,
)
    requires
        x.yields(op, y, Err(err)),
    ensures
        op == Operator::Div,
        err == zero_division(),
{
}

/// A factor fails only by a division by zero.
pub proof fn lemma_factor_fails<F: Float>(f: Factor<Seq<char>>, err: number::Error)
    requires
        factor_evaluates::<F>(f, Err(err)),
    ensures
        err == zero_division(),
    decreases f,
{
    match f {
        Factor::Number(_) => {},
        Factor::Scope(e) => lemma_expression_fails::<F>(*e, err),
    }
}

/// An exponent fails only by a division by zero.
pub proof fn lemma_exponent_fails<F: Float>(x: Exponent<Seq<char>>, err: number::Error)
    requires
        exponent_evaluates::<F>(x, Err(err)),
    ensures
        err == zero_division(),
    decreases x,
{
    let out = Err::<Number<F>, number::Error>(err);
    match x {
        Exponent::Factor(f) => lemma_factor_fails::<F>(f, err),
        Exponent::Power(f, e) => {
            let base = choose|base: Result<Number<F>, number::Error>| #[trigger]
                is_step(base) && factor_evaluates(f, base) && match base {
                    Err(err) => out == Err::<Number<F>, number::Error>(err),
                    Ok(b) => exists|power: Result<Number<F>, number::Error>| #[trigger]
                        is_step(power) && exponent_evaluates(*e, power) && match power {
                            Err(err) => out == Err::<Number<F>, number::Error>(err),
                            Ok(p) => b.yields(Operator::Pow, p, out),
                        },
                };
            match base {
                Err(_) => lemma_factor_fails::<F>(f, err),
                Ok(b) => {
                    let power = choose|power: Result<Number<F>, number::Error>| #[trigger]
                        is_step(power) && exponent_evaluates(*e, power) && match power {
                            Err(err) => out == Err::<Number<F>, number::Error>(err),
                            Ok(p) => b.yields(Operator::Pow, p, out),
                        };
                    match power {
                        Err(_) => lemma_exponent_fails::<F>(*e, err),
                        Ok(p) => lemma_operation_fails(b, Operator::Pow, p, err),
                    }
                },
            }
        },
    }
}

/// Going on with a term fails only by a division by zero.
pub proof fn lemma_term_fold_fails<F: Float>(
    acc: Number<F>,
    op: Operator,
    t: Term<Seq<char>>,
    err: number::Error,
)
    requires
        term_folds(acc, op, t, Err(err)),
    ensures
        err == zero_division(),
    decreases t,
{
    let out = Err::<Number<F>, number::Error>(err);
    let head = choose|head: Result<Number<F>, number::Error>| #[trigger]
        is_step(head) && exponent_evaluates(term_head(t), head) && match head {
            Err(err) => out == Err::<Number<F>, number::Error>(err),
            Ok(n) => match t {
                Term::Exponent(_) => acc.yields(op, n, out),
                Term::Mul(_, tail) => exists|left: Result<Number<F>, number::Error>| #[trigger]
                    acc.yields(op, n, left) && match left {
                        Err(err) => out == Err::<Number<F>, number::Error>(err),
                        Ok(m) => term_folds(m, Operator::Mul, *tail, out),
                    },
                Term::Div(_, tail) => exists|left: Result<Number<F>, number::Error>| #[trigger]
                    acc.yields(op, n, left) && match left {
                        Err(err) => out == Err::<Number<F>, number::Error>(err),
                        Ok(m) => term_folds(m, Operator::Div, *tail, out),
                    },
            },
        };
    match head {
        Err(_) => lemma_exponent_fails::<F>(term_head(t), err),
        Ok(n) => match t {
            Term::Exponent(_) => lemma_operation_fails(acc, op, n, err),
            Term::Mul(_, tail) => {
                let left = choose|left: Result<Number<F>, number::Error>| #[trigger]
                    acc.yields(op, n, left) && match left {
                        Err(err) => out == Err::<Number<F>, number::Error>(err),
                        Ok(m) => term_folds(m, Operator::Mul, *tail, out),
                    };
                match left {
                    Err(_) => lemma_operation_fails(acc, op, n, err),
                    Ok(m) => lemma_term_fold_fails(m, Operator::Mul, *tail, err),
                }
            },
            Term::Div(_, tail) => {
                let left = choose|left: Result<Number<F>, number::Error>| #[trigger]
                    acc.yields(op, n, left) && match left {
                        Err(err) => out == Err::<Number<F>, number::Error>(err),
                        Ok(m) => term_folds(m, Operator::Div, *tail, out),
                    };
                match left {
                    Err(_) => lemma_operation_fails(acc, op, n, err),
                    Ok(m) => lemma_term_fold_fails(m, Operator::Div, *tail, err),
                }
            },
        },
    }
}

/// A term fails only by a division by zero.
pub proof fn lemma_term_fails<F: Float>(t: Term<Seq<char>>, err: number::Error)
    requires
        term_evaluates::<F>(t, Err(err)),
    ensures
        err == zero_division(),
    decreases t,
{
    let out = Err::<Number<F>, number::Error>(err);
    match t {
        Term::Exponent(x) => lemma_exponent_fails::<F>(x, err),
        Term::Mul(x, tail) => {
            let head = choose|head: Result<Number<F>, number::Error>| #[trigger]
                is_step(head) && exponent_evaluates(x, head) && match head {
                    Err(err) => out == Err::<Number<F>, number::Error>(err),
                    Ok(n) => term_folds(n, Operator::Mul, *tail, out),
                };
            match head {
                Err(_) => lemma_exponent_fails::<F>(x, err),
                Ok(n) => lemma_term_fold_fails(n, Operator::Mul, *tail, err),
            }
        },
        Term::Div(x, tail) => {
            let head = choose|head: Result<Number<F>, number::Error>| #[trigger]
                is_step(head) && exponent_evaluates(x, head) && match head {
                    Err(err) => out == Err::<Number<F>, number::Error>(err),
                    Ok(n) => term_folds(n, Operator::Div, *tail, out),
                };
            match head {
                Err(_) => lemma_exponent_fails::<F>(x, err),
                Ok(n) => lemma_term_fold_fails(n, Operator::Div, *tail, err),
            }
        },
    }
}

/// Going on with an expression fails only by a division by zero.
pub proof fn lemma_expression_fold_fails<F: Float>(
    acc: Number<F>,
    op: Operator,
    e: Expression<Seq<char>>,
    err: number::Error,
)
    requires
        expression_folds(acc, op, e, Err(err)),
    ensures
        err == zero_division(),
    decreases e,
{
    let out = Err::<Number<F>, number::Error>(err);
    let head = choose|head: Result<Number<F>, number::Error>| #[trigger]
        is_step(head) && term_evaluates(expression_head(e), head) && match head {
            Err(err) => out == Err::<Number<F>, number::Error>(err),
            Ok(n) => match e {
                Expression::Term(_) => acc.yields(op, n, out),
                Expression::Add(_, tail) => exists|left: Result<Number<F>, number::Error>| #[trigger]
                    acc.yields(op, n, left) && match left {
                        Err(err) => out == Err::<Number<F>, number::Error>(err),
                        Ok(m) => expression_folds(m, Operator::Add, *tail, out),
                    },
                Expression::Sub(_, tail) => exists|left: Result<Number<F>, number::Error>| #[trigger]
                    acc.yields(op, n, left) && match left {
                        Err(err) => out == Err::<Number<F>, number::Error>(err),
                        Ok(m) => expression_folds(m, Operator::Sub, *tail, out),
                    },
            },
        };
    match head {
        Err(_) => lemma_term_fails::<F>(expression_head(e), err),
        Ok(n) => match e {
            Expression::Term(_) => lemma_operation_fails(acc, op, n, err),
            Expression::Add(_, tail) => {
                let left = choose|left: Result<Number<F>, number::Error>| #[trigger]
                    acc.yields(op, n, left) && match left {
                        Err(err) => out == Err::<Number<F>, number::Error>(err),
                        Ok(m) => expression_folds(m, Operator::Add, *tail, out),
                    };
                match left {
                    Err(_) => lemma_operation_fails(acc, op, n, err),
                    Ok(m) => lemma_expression_fold_fails(m, Operator::Add, *tail, err),
                }
            },
            Expression::Sub(_, tail) => {
                let left = choose|left: Result<Number<F>, number::Error>| #[trigger]
                    acc.yields(op, n, left) && match left {
                        Err(err) => out == Err::<Number<F>, number::Error>(err),
                        Ok(m) => expression_folds(m, Operator::Sub, *tail, out),
                    };
                match left {
                    Err(_) => lemma_operation_fails(acc, op, n, err),
                    Ok(m) => lemma_expression_fold_fails(m, Operator::Sub, *tail, err),
                }
            },
        },
    }
}

/// The evaluation of an expression fails only by a division by zero: no
/// other operation fails, and a failure is handed up as it is.
pub proof fn lemma_expression_fails<F: Float>(e: Expression<Seq<char>>, err: number::Error)
    requires
        expression_evaluates::<F>(e, Err(err)),
    ensures
        err == zero_division(),
    decreases e,
{
    let out = Err::<Number<F>, number::Error>(err);
    match e {
        Expression::Term(t) => lemma_term_fails::<F>(t, err),
        Expression::Add(t, tail) => {
            let head = choose|head: Result<Number<F>, number::Error>| #[trigger]
                is_step(head) && term_evaluates(t, head) && match head {
                    Err(err) => out == Err::<Number<F>, number::Error>(err),
                    Ok(n) => expression_folds(n, Operator::Add, *tail, out),
                };
            match head {
                Err(_) => lemma_term_fails::<F>(t, err),
                Ok(n) => lemma_expression_fold_fails(n, Operator::Add, *tail, err),
            }
        },
        Expression::Sub(t, tail) => {
            let head = choose|head: Result<Number<F>, number::Error>| #[trigger]
                is_step(head) && term_evaluates(t, head) && match head {
                    Err(err) => out == Err::<Number<F>, number::Error>(err),
                    Ok(n) => expression_folds(n, Operator::Sub, *tail, out),
                };
            match head {
                Err(_) => lemma_term_fails::<F>(t, err),
                Ok(n) => lemma_expression_fold_fails(n, Operator::Sub, *tail, err),
            }
        },
    }
}

} // verus!
