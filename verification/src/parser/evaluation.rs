use vstd::prelude::*;
use crate::number;
use crate::number::number::Operator;
use crate::number::{Float, Number};
use crate::parser::base::num_ex::{number_of, stands_for};
use crate::parser::error::Error;
use crate::parser::numerical_expression::{
    exponent_wf,
    expression_spec,
    expression_wf,
    factor_wf,
    parser,
    term_wf,
    Exponent,
    Expression,
    Factor,
    Term,
};
use crate::parser::text::is_suffix;

verus! {

/// Holds of every intermediate result. A contract that says "there is
/// an intermediate result such that ..." names it by this.
pub open spec fn is_step<F: Float>(step: Result<Number<F>, number::Error>) -> bool {
    true
}

/// `out` is an outcome of evaluating the factor: a number that its literal
/// stands for, or an outcome of the expression in the parentheses.
pub open spec fn factor_evaluates<F: Float>(
    f: Factor<Seq<char>>,
    out: Result<Number<F>, number::Error>,
) -> bool
    decreases f,
{
    match f {
        Factor::Number(lit) => out is Ok && stands_for(lit, out->Ok_0),
        Factor::Scope(e) => expression_evaluates(*e, out),
    }
}

/// `out` is an outcome of evaluating the exponent. Powers associate to the
/// right: the base is raised to the value of all that stands behind `^`.
pub open spec fn exponent_evaluates<F: Float>(
    x: Exponent<Seq<char>>,
    out: Result<Number<F>, number::Error>,
) -> bool
    decreases x,
{
    match x {
        Exponent::Factor(f) => factor_evaluates(f, out),
        Exponent::Power(f, e) => exists|base: Result<Number<F>, number::Error>| #[trigger]
            is_step(base) && factor_evaluates(f, base) && match base {
                Err(err) => out == Err::<Number<F>, number::Error>(err),
                Ok(b) => exists|power: Result<Number<F>, number::Error>| #[trigger]
                    is_step(power) && exponent_evaluates(*e, power) && match power {
                        Err(err) => out == Err::<Number<F>, number::Error>(err),
                        Ok(p) => b.yields(Operator::Pow, p, out),
                    },
            },
    }
}

/// The exponent that a term begins with.
pub open spec fn term_head(t: Term<Seq<char>>) -> Exponent<Seq<char>> {
    match t {
        Term::Exponent(x) => x,
        Term::Mul(x, _) => x,
        Term::Div(x, _) => x,
    }
}

/// `out` is an outcome of going on, with the term `t`, from the value `acc`
/// of all that stands to the left of it and the operator `op` between the
/// two. Products and quotients associate to the left: `op` is applied to
/// `acc` and the first exponent of `t`, and the result is what the rest of
/// `t` goes on from.
pub open spec fn term_folds<F: Float>(
    acc: Number<F>,
    op: Operator,
    t: Term<Seq<char>>,
    out: Result<Number<F>, number::Error>,
) -> bool
    decreases t,
{
    exists|head: Result<Number<F>, number::Error>| #[trigger]
        is_step(head) && exponent_evaluates(term_head(t), head) && match head {
            Err(err) => out == Err::<Number<F>, number::Error>(err),
            Ok(n) => match t {
                Term::Exponent(_) => acc.yields(op, n, out),
                Term::Mul(_, tail) => exists|left: Result<Number<F>, number::Error>| #[trigger]
                    acc.yields(op, n, left) && match left {
                        Err(err) => out == Err::<Number<F>, number::Error>(err),
                        Ok(m) => term_folds(m, Operator::Mul, *tail, out),
                    },
                Term::Div(_, tail) => exists|left: Result<Number<F>, number::Error>| #[trigger]
                    acc.yields(op, n, left) && match left {
                        Err(err) => out == Err::<Number<F>, number::Error>(err),
                        Ok(m) => term_folds(m, Operator::Div, *tail, out),
                    },
            },
        }
}

/// `out` is an outcome of evaluating the term, from left to right.
pub open spec fn term_evaluates<F: Float>(
    t: Term<Seq<char>>,
    out: Result<Number<F>, number::Error>,
) -> bool
    decreases t,
{
    match t {
        Term::Exponent(x) => exponent_evaluates(x, out),
        Term::Mul(x, tail) => exists|head: Result<Number<F>, number::Error>| #[trigger]
            is_step(head) && exponent_evaluates(x, head) && match head {
                Err(err) => out == Err::<Number<F>, number::Error>(err),
                Ok(n) => term_folds(n, Operator::Mul, *tail, out),
            },
        Term::Div(x, tail) => exists|head: Result<Number<F>, number::Error>| #[trigger]
            is_step(head) && exponent_evaluates(x, head) && match head {
                Err(err) => out == Err::<Number<F>, number::Error>(err),
                Ok(n) => term_folds(n, Operator::Div, *tail, out),
            },
    }
}

/// The term that an expression begins with.
pub open spec fn expression_head(e: Expression<Seq<char>>) -> Term<Seq<char>> {
    match e {
        Expression::Term(t) => t,
        Expression::Add(t, _) => t,
        Expression::Sub(t, _) => t,
    }
}

/// `out` is an outcome of going on, with the expression `e`, from the value
/// `acc` of all that stands to the left of it and the operator `op` between
/// the two. Sums and differences associate to the left.
pub open spec fn expression_folds<F: Float>(
    acc: Number<F>,
    op: Operator,
    e: Expression<Seq<char>>,
    out: Result<Number<F>, number::Error>,
) -> bool
    decreases e,
{
    exists|head: Result<Number<F>, number::Error>| #[trigger]
        is_step(head) && term_evaluates(expression_head(e), head) && match head {
            Err(err) => out == Err::<Number<F>, number::Error>(err),
            Ok(n) => match e {
                Expression::Term(_) => acc.yields(op, n, out),
                Expression::Add(_, tail) => exists|left: Result<Number<F>, number::Error>| #[trigger]
                    acc.yields(op, n, left) && match left {
                        Err(err) => out == Err::<Number<F>, number::Error>(err),
                        Ok(m) => expression_folds(m, Operator::Add, *tail, out),
                    },
                Expression::Sub(_, tail) => exists|left: Result<Number<F>, number::Error>| #[trigger]
                    acc.yields(op, n, left) && match left {
                        Err(err) => out == Err::<Number<F>, number::Error>(err),
                        Ok(m) => expression_folds(m, Operator::Sub, *tail, out),
                    },
            },
        }
}

/// `out` is an outcome of evaluating the expression, from left to right.
/// The first failure of an operation is the outcome of the whole.
pub open spec fn expression_evaluates<F: Float>(
    e: Expression<Seq<char>>,
    out: Result<Number<F>, number::Error>,
) -> bool
    decreases e,
{
    match e {
        Expression::Term(t) => term_evaluates(t, out),
        Expression::Add(t, tail) => exists|head: Result<Number<F>, number::Error>| #[trigger]
            is_step(head) && term_evaluates(t, head) && match head {
                Err(err) => out == Err::<Number<F>, number::Error>(err),
                Ok(n) => expression_folds(n, Operator::Add, *tail, out),
            },
        Expression::Sub(t, tail) => exists|head: Result<Number<F>, number::Error>| #[trigger]
            is_step(head) && term_evaluates(t, head) && match head {
                Err(err) => out == Err::<Number<F>, number::Error>(err),
                Ok(n) => expression_folds(n, Operator::Sub, *tail, out),
            },
    }
}

impl Factor<String> {
    /// Evaluates the factor.
    pub fn calc<F: Float>(&self) -> (out: Result<Number<F>, number::Error>)
        requires
            factor_wf(self@),
        ensures
            factor_evaluates(self@, out),
        decreases self,
    {
        match self {
            Factor::Number(lit) => Ok(number_of::<F>(lit)),
            Factor::Scope(e) => e.calc::<F>(),
        }
    }
}

impl Exponent<String> {
    /// Evaluates the exponent.
    pub fn calc<F: Float>(&self) -> (out: Result<Number<F>, number::Error>)
        requires
            exponent_wf(self@),
        ensures
            exponent_evaluates(self@, out),
        decreases self,
    {
        match self {
            Exponent::Factor(f) => f.calc::<F>(),
            Exponent::Power(f, e) => {
                assert(self@ == Exponent::Power(f@, Box::new(e@)));
                let base = f.calc::<F>();
                let out = match base {
                    Err(err) => Err(err),
                    Ok(b) => {
                        let power = e.calc::<F>();
                        let out = match power {
                            Err(err) => Err(err),
                            Ok(p) => b.apply(Operator::Pow, p),
                        };
                        assert(is_step(power) && exponent_evaluates(e@, power) && match power {
                            Err(err) => out == Err::<Number<F>, number::Error>(err),
                            Ok(p) => b.yields(Operator::Pow, p, out),
                        });
                        out
                    },
                };
                assert(is_step(base) && factor_evaluates(f@, base) && match base {
                    Err(err) => out == Err::<Number<F>, number::Error>(err),
                    Ok(b) => exists|power: Result<Number<F>, number::Error>| #[trigger]
                        is_step(power) && exponent_evaluates(e@, power) && match power {
                            Err(err) => out == Err::<Number<F>, number::Error>(err),
                            Ok(p) => b.yields(Operator::Pow, p, out),
                        },
                });
                out
            },
        }
    }
}

impl Term<String> {
    /// Goes on with this term from the value `acc` of what stands to the
    /// left of it, and the operator `op` in between.
    pub fn fold<F: Float>(&self, acc: Number<F>, op: Operator) -> (out: Result<
        Number<F>,
        number::Error,
    >)
        requires
            term_wf(self@),
        ensures
            term_folds(acc, op, self@, out),
        decreases self,
    {
        match self {
            Term::Exponent(x) => {
                assert(self@ == Term::Exponent(x@));
                let head = x.calc::<F>();
                let out = match head {
                    Err(err) => Err(err),
                    Ok(n) => acc.apply(op, n),
                };
                assert(is_step(head) && exponent_evaluates(term_head(self@), head) && match head {
                    Err(err) => out == Err::<Number<F>, number::Error>(err),
                    Ok(n) => acc.yields(op, n, out),
                });
                out
            },
            Term::Mul(x, tail) => {
                assert(self@ == Term::Mul(x@, Box::new(tail@)));
                let head = x.calc::<F>();
                let out = match head {
                    Err(err) => Err(err),
                    Ok(n) => {
                        let left = acc.apply(op, n);
                        let out = match left {
                            Err(err) => Err(err),
                            Ok(m) => tail.fold(m, Operator::Mul),
                        };
                        assert(acc.yields(op, n, left) && match left {
                            Err(err) => out == Err::<Number<F>, number::Error>(err),
                            Ok(m) => term_folds(m, Operator::Mul, tail@, out),
                        });
                        out
                    },
                };
                assert(is_step(head) && exponent_evaluates(term_head(self@), head) && match head {
                    Err(err) => out == Err::<Number<F>, number::Error>(err),
                    Ok(n) => exists|left: Result<Number<F>, number::Error>| #[trigger]
                        acc.yields(op, n, left) && match left {
                            Err(err) => out == Err::<Number<F>, number::Error>(err),
                            Ok(m) => term_folds(m, Operator::Mul, tail@, out),
                        },
                });
                out
            },
            Term::Div(x, tail) => {
                assert(self@ == Term::Div(x@, Box::new(tail@)));
                let head = x.calc::<F>();
                let out = match head {
                    Err(err) => Err(err),
                    Ok(n) => {
                        let left = acc.apply(op, n);
                        let out = match left {
                            Err(err) => Err(err),
                            Ok(m) => tail.fold(m, Operator::Div),
                        };
                        assert(acc.yields(op, n, left) && match left {
                            Err(err) => out == Err::<Number<F>, number::Error>(err),
                            Ok(m) => term_folds(m, Operator::Div, tail@, out),
                        });
                        out
                    },
                };
                assert(is_step(head) && exponent_evaluates(term_head(self@), head) && match head {
                    Err(err) => out == Err::<Number<F>, number::Error>(err),
                    Ok(n) => exists|left: Result<Number<F>, number::Error>| #[trigger]
                        acc.yields(op, n, left) && match left {
                            Err(err) => out == Err::<Number<F>, number::Error>(err),
                            Ok(m) => term_folds(m, Operator::Div, tail@, out),
                        },
                });
                out
            },
        }
    }

    /// Evaluates the term, from left to right.
    pub fn calc<F: Float>(&self) -> (out: Result<Number<F>, number::Error>)
        requires
            term_wf(self@),
        ensures
            term_evaluates(self@, out),
        decreases self,
    {
        match self {
            Term::Exponent(x) => {
                assert(self@ == Term::Exponent(x@));
                x.calc::<F>()
            },
            Term::Mul(x, tail) => {
                assert(self@ == Term::Mul(x@, Box::new(tail@)));
                let head = x.calc::<F>();
                let out = match head {
                    Err(err) => Err(err),
                    Ok(n) => tail.fold(n, Operator::Mul),
                };
                assert(is_step(head) && exponent_evaluates(x@, head) && match head {
                    Err(err) => out == Err::<Number<F>, number::Error>(err),
                    Ok(n) => term_folds(n, Operator::Mul, tail@, out),
                });
                out
            },
            Term::Div(x, tail) => {
                assert(self@ == Term::Div(x@, Box::new(tail@)));
                let head = x.calc::<F>();
                let out = match head {
                    Err(err) => Err(err),
                    Ok(n) => tail.fold(n, Operator::Div),
                };
                assert(is_step(head) && exponent_evaluates(x@, head) && match head {
                    Err(err) => out == Err::<Number<F>, number::Error>(err),
                    Ok(n) => term_folds(n, Operator::Div, tail@, out),
                });
                out
            },
        }
    }
}

impl Expression<String> {
    /// Goes on with this expression from the value `acc` of what stands to the
    /// left of it, and the operator `op` in between.
    pub fn fold<F: Float>(&self, acc: Number<F>, op: Operator) -> (out: Result<
        Number<F>,
        number::Error,
    >)
        requires
            expression_wf(self@),
        ensures
            expression_folds(acc, op, self@, out),
        decreases self,
    {
        match self {
            Expression::Term(x) => {
                assert(self@ == Expression::Term(x@));
                let head = x.calc::<F>();
                let out = match head {
                    Err(err) => Err(err),
                    Ok(n) => acc.apply(op, n),
                };
                assert(is_step(head) && term_evaluates(expression_head(self@), head) && match head {
                    Err(err) => out == Err::<Number<F>, number::Error>(err),
                    Ok(n) => acc.yields(op, n, out),
                });
                out
            },
            Expression::Add(x, tail) => {
                assert(self@ == Expression::Add(x@, Box::new(tail@)));
                let head = x.calc::<F>();
                let out = match head {
                    Err(err) => Err(err),
                    Ok(n) => {
                        let left = acc.apply(op, n);
                        let out = match left {
                            Err(err) => Err(err),
                            Ok(m) => tail.fold(m, Operator::Add),
                        };
                        assert(acc.yields(op, n, left) && match left {
                            Err(err) => out == Err::<Number<F>, number::Error>(err),
                            Ok(m) => expression_folds(m, Operator::Add, tail@, out),
                        });
                        out
                    },
                };
                assert(is_step(head) && term_evaluates(expression_head(self@), head) && match head {
                    Err(err) => out == Err::<Number<F>, number::Error>(err),
                    Ok(n) => exists|left: Result<Number<F>, number::Error>| #[trigger]
                        acc.yields(op, n, left) && match left {
                            Err(err) => out == Err::<Number<F>, number::Error>(err),
                            Ok(m) => expression_folds(m, Operator::Add, tail@, out),
                        },
                });
                out
            },
            Expression::Sub(x, tail) => {
                assert(self@ == Expression::Sub(x@, Box::new(tail@)));
                let head = x.calc::<F>();
                let out = match head {
                    Err(err) => Err(err),
                    Ok(n) => {
                        let left = acc.apply(op, n);
                        let out = match left {
                            Err(err) => Err(err),
                            Ok(m) => tail.fold(m, Operator::Sub),
                        };
                        assert(acc.yields(op, n, left) && match left {
                            Err(err) => out == Err::<Number<F>, number::Error>(err),
                            Ok(m) => expression_folds(m, Operator::Sub, tail@, out),
                        });
                        out
                    },
                };
                assert(is_step(head) && term_evaluates(expression_head(self@), head) && match head {
                    Err(err) => out == Err::<Number<F>, number::Error>(err),
                    Ok(n) => exists|left: Result<Number<F>, number::Error>| #[trigger]
                        acc.yields(op, n, left) && match left {
                            Err(err) => out == Err::<Number<F>, number::Error>(err),
                            Ok(m) => expression_folds(m, Operator::Sub, tail@, out),
                        },
                });
                out
            },
        }
    }

    /// Evaluates the expression, from left to right. The first operation
    /// that fails ends the evaluation with its error.
    pub fn calc<F: Float>(&self) -> (out: Result<Number<F>, number::Error>)
        requires
            expression_wf(self@),
        ensures
            expression_evaluates(self@, out),
        decreases self,
    {
        match self {
            Expression::Term(x) => {
                assert(self@ == Expression::Term(x@));
                x.calc::<F>()
            },
            Expression::Add(x, tail) => {
                assert(self@ == Expression::Add(x@, Box::new(tail@)));
                let head = x.calc::<F>();
                let out = match head {
                    Err(err) => Err(err),
                    Ok(n) => tail.fold(n, Operator::Add),
                };
                assert(is_step(head) && term_evaluates(x@, head) && match head {
                    Err(err) => out == Err::<Number<F>, number::Error>(err),
                    Ok(n) => expression_folds(n, Operator::Add, tail@, out),
                });
                out
            },
            Expression::Sub(x, tail) => {
                assert(self@ == Expression::Sub(x@, Box::new(tail@)));
                let head = x.calc::<F>();
                let out = match head {
                    Err(err) => Err(err),
                    Ok(n) => tail.fold(n, Operator::Sub),
                };
                assert(is_step(head) && term_evaluates(x@, head) && match head {
                    Err(err) => out == Err::<Number<F>, number::Error>(err),
                    Ok(n) => expression_folds(n, Operator::Sub, tail@, out),
                });
                out
            },
        }
    }
}

/// `o` is an outcome of parsing an expression at the front of `i` and
/// evaluating it: the failure of the parser; or the failure of the
/// evaluation; or the value, with the text behind the expression.
pub open spec fn parse_and_calc_yields<'a, F: Float>(
    i: Seq<char>,
    o: Result<(&'a str, Number<F>), Error>,
) -> bool {
    match expression_spec(i) {
        Err(e) => o == Err::<(&'a str, Number<F>), Error>(e),
        Ok((rest, tree)) => exists|value: Result<Number<F>, number::Error>| #[trigger]
            is_step(value) && expression_evaluates(tree, value) && match value {
                Err(err) => o == Err::<(&'a str, Number<F>), Error>(Error::NumberError(err)),
                Ok(n) => o matches Ok((left, m)) && left@ == rest && m == n,
            },
    }
}

/// Parses an arithmetic expression at the front of the text and evaluates
/// it. Text that follows the expression is handed back, not rejected.
pub fn parse_and_calc<'a, F: Float>(i: &'a str) -> (o: Result<(&'a str, Number<F>), Error>)
    ensures
        parse_and_calc_yields(i@, o),
        o matches Ok((rest, _)) ==> is_suffix(rest@, i@),
{
    match parser(i) {
        Err(e) => Err(e),
        Ok((rest, tree)) => {
            let value = tree.calc::<F>();
            assert(is_step(value));
            match value {
                Err(err) => Err(Error::NumberError(err)),
                Ok(n) => Ok((rest, n)),
            }
        },
    }
}

} // verus!
