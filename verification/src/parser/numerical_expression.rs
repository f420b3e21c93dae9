use vstd::prelude::*;
use crate::number::float::is_decimal_text;
use crate::parser::base::char::{char_spec, expect_char};
use crate::parser::base::num_ex::{literal, literal_spec, Literal};
use crate::parser::error::Error;
pub use crate::parser::evaluation::parse_and_calc;
use crate::parser::text::{is_suffix, lemma_suffix_transitive, trim_start, trimmed};

verus! {

/// A number as it is written, or an expression in parentheses.
///
/// The trees are generic in how they hold the text of a decimal number: the
/// parser builds trees over `String`; contracts speak of trees over
/// `Seq<char>`, the views of those.
#[derive(Debug, PartialEq)]
pub enum Factor<T> {
    Number(Literal<T>),
    Scope(Box<Expression<T>>),
}

/// A factor, or a factor raised to an exponent.
#[derive(Debug, PartialEq)]
pub enum Exponent<T> {
    Factor(Factor<T>),
    Power(Factor<T>, Box<Exponent<T>>),
}

/// An exponent, or an exponent multiplied with or divided by a term.
#[derive(Debug, PartialEq)]
pub enum Term<T> {
    Exponent(Exponent<T>),
    Mul(Exponent<T>, Box<Term<T>>),
    Div(Exponent<T>, Box<Term<T>>),
}

/// A term, or a term to which an expression is added or from which one is
/// subtracted.
#[derive(Debug, PartialEq)]
pub enum Expression<T> {
    Term(Term<T>),
    Add(Term<T>, Box<Expression<T>>),
    Sub(Term<T>, Box<Expression<T>>),
}

/// The view of a factor.
pub open spec fn factor_view(f: Factor<String>) -> Factor<Seq<char>>
    decreases f,
{
    match f {
        Factor::Number(lit) => Factor::Number(lit@),
        Factor::Scope(e) => Factor::Scope(Box::new(expression_view(*e))),
    }
}

/// The view of an exponent.
pub open spec fn exponent_view(x: Exponent<String>) -> Exponent<Seq<char>>
    decreases x,
{
    match x {
        Exponent::Factor(f) => Exponent::Factor(factor_view(f)),
        Exponent::Power(f, e) => Exponent::Power(factor_view(f), Box::new(exponent_view(*e))),
    }
}

/// The view of a term.
pub open spec fn term_view(t: Term<String>) -> Term<Seq<char>>
    decreases t,
{
    match t {
        Term::Exponent(x) => Term::Exponent(exponent_view(x)),
        Term::Mul(x, tail) => Term::Mul(exponent_view(x), Box::new(term_view(*tail))),
        Term::Div(x, tail) => Term::Div(exponent_view(x), Box::new(term_view(*tail))),
    }
}

/// The view of an expression.
pub open spec fn expression_view(e: Expression<String>) -> Expression<Seq<char>>
    decreases e,
{
    match e {
        Expression::Term(t) => Expression::Term(term_view(t)),
        Expression::Add(t, tail) => Expression::Add(term_view(t), Box::new(expression_view(*tail))),
        Expression::Sub(t, tail) => Expression::Sub(term_view(t), Box::new(expression_view(*tail))),
    }
}

impl View for Factor<String> {
    type V = Factor<Seq<char>>;

    open spec fn view(&self) -> Factor<Seq<char>> {
        factor_view(*self)
    }
}

impl View for Exponent<String> {
    type V = Exponent<Seq<char>>;

    open spec fn view(&self) -> Exponent<Seq<char>> {
        exponent_view(*self)
    }
}

impl View for Term<String> {
    type V = Term<Seq<char>>;

    open spec fn view(&self) -> Term<Seq<char>> {
        term_view(*self)
    }
}

impl View for Expression<String> {
    type V = Expression<Seq<char>>;

    open spec fn view(&self) -> Expression<Seq<char>> {
        expression_view(*self)
    }
}

/// The text behind the operator `op` and the whitespace around it, where
/// `op` is the first thing in `i` that is no whitespace.
pub open spec fn after_operator(op: char, i: Seq<char>) -> Option<Seq<char>> {
    let at = trimmed(i);
    if at.len() > 0 && at[0] == op {
        Some(trimmed(at.drop_first()))
    } else {
        None
    }
}

/// The error `e`, wrapped as the failure of a sequence that it passed
/// through.
pub open spec fn wrap(e: Error) -> Error {
    Error::sequence(e)
}

/// What the rule
///
/// ```text
/// Factor ::= Number | '(' Expression ')'
/// ```
///
/// reads at the front of `i`, whitespace before every token skipped. Where
/// neither branch matches, the failure holds the errors of both, each
/// wrapped once for every sequence that it passed through.
///
/// The tests on lengths in this and the next three functions always hold,
/// since every rule consumes at least one character; they are what makes the
/// recursion well-founded.
pub open spec fn factor_spec(i: Seq<char>) -> Result<(Seq<char>, Factor<Seq<char>>), Error>
    decreases i.len(), 0int,
{
    let i1 = trimmed(i);
    match literal_spec(i1) {
        Ok((rest, lit)) => Ok((rest, Factor::Number(lit))),
        Err(e1) => match char_spec('(', i1) {
            Err(e) => Err(wrap(Error::alternative(e1, wrap(wrap(wrap(wrap(e))))))),
            Ok((r1, _)) => {
                let r2 = trimmed(r1);
                if r2.len() < i.len() {
                    match expression_spec(r2) {
                        Err(e) => Err(wrap(Error::alternative(e1, wrap(wrap(wrap(e)))))),
                        Ok((r3, inner)) => match char_spec(')', trimmed(r3)) {
                            Err(e) => Err(wrap(Error::alternative(e1, wrap(e)))),
                            Ok((r5, _)) => Ok((r5, Factor::Scope(Box::new(inner)))),
                        },
                    }
                } else {
                    Err(Error::ParseCharError)
                }
            },
        },
    }
}

/// What the rule
///
/// ```text
/// Exponent ::= Factor ('^' Exponent)?
/// ```
///
/// reads at the front of `i`. Where no complete `'^' Exponent` follows the
/// factor, the factor alone is the result and the text behind it is left
/// over as it is.
pub open spec fn exponent_spec(i: Seq<char>) -> Result<(Seq<char>, Exponent<Seq<char>>), Error>
    decreases i.len(), 1int,
{
    match factor_spec(i) {
        Err(e) => Err(wrap(e)),
        Ok((r1, f)) => match after_operator('^', r1) {
            Some(r3) if r3.len() < i.len() => match exponent_spec(r3) {
                Ok((rest, e)) => Ok((rest, Exponent::Power(f, Box::new(e)))),
                Err(_) => Ok((r1, Exponent::Factor(f))),
            },
            _ => Ok((r1, Exponent::Factor(f))),
        },
    }
}

/// What the rule
///
/// ```text
/// Term ::= Exponent (('*' | '/') Term)?
/// ```
///
/// reads at the front of `i`.
pub open spec fn term_spec(i: Seq<char>) -> Result<(Seq<char>, Term<Seq<char>>), Error>
    decreases i.len(), 2int,
{
    let i1 = trimmed(i);
    if i1.len() <= i.len() {
        match exponent_spec(i1) {
            Err(e) => Err(wrap(wrap(e))),
            Ok((r1, x)) => {
                let times = match after_operator('*', r1) {
                    Some(r3) if r3.len() < i.len() => term_spec(r3),
                    _ => Err(Error::ParseCharError),
                };
                let over = match after_operator('/', r1) {
                    Some(r3) if r3.len() < i.len() => term_spec(r3),
                    _ => Err(Error::ParseCharError),
                };
                match times {
                    Ok((rest, tail)) => Ok((rest, Term::Mul(x, Box::new(tail)))),
                    Err(_) => match over {
                        Ok((rest, tail)) => Ok((rest, Term::Div(x, Box::new(tail)))),
                        Err(_) => Ok((r1, Term::Exponent(x))),
                    },
                }
            },
        }
    } else {
        Err(Error::ParseCharError)
    }
}

/// What the rule
///
/// ```text
/// Expression ::= Term (('+' | '-') Expression)?
/// ```
///
/// reads at the front of `i`.
pub open spec fn expression_spec(i: Seq<char>) -> Result<(Seq<char>, Expression<Seq<char>>), Error>
    decreases i.len(), 3int,
{
    let i1 = trimmed(i);
    if i1.len() <= i.len() {
        match term_spec(i1) {
            Err(e) => Err(wrap(wrap(e))),
            Ok((r1, t)) => {
                let plus = match after_operator('+', r1) {
                    Some(r3) if r3.len() < i.len() => expression_spec(r3),
                    _ => Err(Error::ParseCharError),
                };
                let minus = match after_operator('-', r1) {
                    Some(r3) if r3.len() < i.len() => expression_spec(r3),
                    _ => Err(Error::ParseCharError),
                };
                match plus {
                    Ok((rest, tail)) => Ok((rest, Expression::Add(t, Box::new(tail)))),
                    Err(_) => match minus {
                        Ok((rest, tail)) => Ok((rest, Expression::Sub(t, Box::new(tail)))),
                        Err(_) => Ok((r1, Expression::Term(t))),
                    },
                }
            },
        }
    } else {
        Err(Error::ParseCharError)
    }
}

/// Every decimal number in the factor is decimal text.
pub open spec fn factor_wf(f: Factor<Seq<char>>) -> bool
    decreases f,
{
    match f {
        Factor::Number(Literal::Int(_)) => true,
        Factor::Number(Literal::Decimal(text)) => is_decimal_text(text),
        Factor::Scope(e) => expression_wf(*e),
    }
}

/// Every decimal number in the exponent is decimal text.
pub open spec fn exponent_wf(x: Exponent<Seq<char>>) -> bool
    decreases x,
{
    match x {
        Exponent::Factor(f) => factor_wf(f),
        Exponent::Power(f, e) => factor_wf(f) && exponent_wf(*e),
    }
}

/// Every decimal number in the term is decimal text.
pub open spec fn term_wf(t: Term<Seq<char>>) -> bool
    decreases t,
{
    match t {
        Term::Exponent(x) => exponent_wf(x),
        Term::Mul(x, tail) => exponent_wf(x) && term_wf(*tail),
        Term::Div(x, tail) => exponent_wf(x) && term_wf(*tail),
    }
}

/// Every decimal number in the expression is decimal text.
pub open spec fn expression_wf(e: Expression<Seq<char>>) -> bool
    decreases e,
{
    match e {
        Expression::Term(t) => term_wf(t),
        Expression::Add(t, tail) => term_wf(t) && expression_wf(*tail),
        Expression::Sub(t, tail) => term_wf(t) && expression_wf(*tail),
    }
}

/// What a parser of factors hands back, text and tree taken by their views.
pub open spec fn factor_outcome<'a>(o: Result<(&'a str, Factor<String>), Error>) -> Result<
    (Seq<char>, Factor<Seq<char>>),
    Error,
> {
    match o {
        Ok((rest, f)) => Ok((rest@, f@)),
        Err(e) => Err(e),
    }
}

/// What a parser of exponents hands back, text and tree taken by their views.
pub open spec fn exponent_outcome<'a>(o: Result<(&'a str, Exponent<String>), Error>) -> Result<
    (Seq<char>, Exponent<Seq<char>>),
    Error,
> {
    match o {
        Ok((rest, x)) => Ok((rest@, x@)),
        Err(e) => Err(e),
    }
}

/// What a parser of terms hands back, text and tree taken by their views.
pub open spec fn term_outcome<'a>(o: Result<(&'a str, Term<String>), Error>) -> Result<
    (Seq<char>, Term<Seq<char>>),
    Error,
> {
    match o {
        Ok((rest, t)) => Ok((rest@, t@)),
        Err(e) => Err(e),
    }
}

/// What a parser of expressions hands back, text and tree taken by their
/// views.
pub open spec fn expression_outcome<'a>(o: Result<(&'a str, Expression<String>), Error>) -> Result<
    (Seq<char>, Expression<Seq<char>>),
    Error,
> {
    match o {
        Ok((rest, e)) => Ok((rest@, e@)),
        Err(e) => Err(e),
    }
}

/// Skips whitespace, the operator `op` and the whitespace behind it.
pub fn skip_operator<'a>(op: char, i: &'a str) -> (r: Option<&'a str>)
    ensures
        match after_operator(op, i@) {
            Some(rest) => r matches Some(found) && found@ == rest && is_suffix(found@, i@)
                && found@.len() < i@.len(),
            None => r is None,
        },
{
    let at = trim_start(i);
    match expect_char(op, at) {
        Ok((behind, _)) => {
            let found = trim_start(behind);
            proof {
                assert(behind@ =~= at@.skip(1));
                assert(is_suffix(behind@, at@));
                lemma_suffix_transitive(found@, behind@, at@);
                lemma_suffix_transitive(found@, at@, i@);
            }
            Some(found)
        },
        Err(_) => None,
    }
}

impl Factor<String> {
    /// Parses a factor at the front of the text.
    pub fn new<'a>(i: &'a str) -> (o: Result<(&'a str, Factor<String>), Error>)
        ensures
            factor_outcome(o) == factor_spec(i@),
            o matches Ok((rest, f)) ==> is_suffix(rest@, i@) && rest@.len() < i@.len() && factor_wf(
                f@,
            ),
        decreases i@.len(), 0int,
    {
        let i1 = trim_start(i);
        match literal(i1) {
            Ok((rest, lit)) => {
                proof {
                    lemma_suffix_transitive(rest@, i1@, i@);
                }
                Ok((rest, Factor::Number(lit)))
            },
            Err(e1) => match expect_char('(', i1) {
                Err(e) => Err(
                    Error::in_sequence(
                        Error::in_alternative(
                            e1,
                            Error::in_sequence(
                                Error::in_sequence(Error::in_sequence(Error::in_sequence(e))),
                            ),
                        ),
                    ),
                ),
                Ok((r1, _)) => {
                    let r2 = trim_start(r1);
                    proof {
                        assert(r1@ =~= i1@.skip(1));
                        assert(is_suffix(r1@, i1@));
                        lemma_suffix_transitive(r2@, r1@, i1@);
                        lemma_suffix_transitive(r2@, i1@, i@);
                    }
                    match Expression::new(r2) {
                        Err(e) => Err(
                            Error::in_sequence(
                                Error::in_alternative(
                                    e1,
                                    Error::in_sequence(
                                        Error::in_sequence(Error::in_sequence(e)),
                                    ),
                                ),
                            ),
                        ),
                        Ok((r3, inner)) => {
                            let r4 = trim_start(r3);
                            match expect_char(')', r4) {
                                Err(e) => Err(
                                    Error::in_sequence(
                                        Error::in_alternative(e1, Error::in_sequence(e)),
                                    ),
                                ),
                                Ok((r5, _)) => {
                                    proof {
                                        assert(r5@ =~= r4@.skip(1));
                                        assert(is_suffix(r5@, r4@));
                                        lemma_suffix_transitive(r5@, r4@, r3@);
                                        lemma_suffix_transitive(r5@, r3@, r2@);
                                        lemma_suffix_transitive(r5@, r2@, i@);
                                    }
                                    Ok((r5, Factor::Scope(Box::new(inner))))
                                },
                            }
                        },
                    }
                },
            },
        }
    }
}

impl Exponent<String> {
    /// Parses an exponent at the front of the text.
    pub fn new<'a>(i: &'a str) -> (o: Result<(&'a str, Exponent<String>), Error>)
        ensures
            exponent_outcome(o) == exponent_spec(i@),
            o matches Ok((rest, x)) ==> is_suffix(rest@, i@) && rest@.len() < i@.len()
                && exponent_wf(x@),
        decreases i@.len(), 1int,
    {
        match Factor::new(i) {
            Err(e) => Err(Error::in_sequence(e)),
            Ok((r1, f)) => {
                match skip_operator('^', r1) {
                    Some(r3) => {
                        proof {
                            lemma_suffix_transitive(r3@, r1@, i@);
                        }
                        match Exponent::new(r3) {
                            Ok((rest, e)) => {
                                proof {
                                    lemma_suffix_transitive(rest@, r3@, i@);
                                }
                                Ok((rest, Exponent::Power(f, Box::new(e))))
                            },
                            Err(_) => Ok((r1, Exponent::Factor(f))),
                        }
                    },
                    None => Ok((r1, Exponent::Factor(f))),
                }
            },
        }
    }
}

impl Term<String> {
    /// Parses a term at the front of the text.
    pub fn new<'a>(i: &'a str) -> (o: Result<(&'a str, Term<String>), Error>)
        ensures
            term_outcome(o) == term_spec(i@),
            o matches Ok((rest, t)) ==> is_suffix(rest@, i@) && rest@.len() < i@.len() && term_wf(
                t@,
            ),
        decreases i@.len(), 2int,
    {
        let i1 = trim_start(i);
        match Exponent::new(i1) {
            Err(e) => Err(Error::in_sequence(Error::in_sequence(e))),
            Ok((r1, x)) => {
                proof {
                    lemma_suffix_transitive(r1@, i1@, i@);
                }
                if let Some(r3) = skip_operator('*', r1) {
                    proof {
                        lemma_suffix_transitive(r3@, r1@, i@);
                    }
                    if let Ok((rest, tail)) = Term::new(r3) {
                        proof {
                            lemma_suffix_transitive(rest@, r3@, i@);
                        }
                        return Ok((rest, Term::Mul(x, Box::new(tail))));
                    }
                }
                if let Some(r3) = skip_operator('/', r1) {
                    proof {
                        lemma_suffix_transitive(r3@, r1@, i@);
                    }
                    if let Ok((rest, tail)) = Term::new(r3) {
                        proof {
                            lemma_suffix_transitive(rest@, r3@, i@);
                        }
                        return Ok((rest, Term::Div(x, Box::new(tail))));
                    }
                }
                Ok((r1, Term::Exponent(x)))
            },
        }
    }
}

impl Expression<String> {
    /// Parses an expression at the front of the text.
    pub fn new<'a>(i: &'a str) -> (o: Result<(&'a str, Expression<String>), Error>)
        ensures
            expression_outcome(o) == expression_spec(i@),
            o matches Ok((rest, e)) ==> is_suffix(rest@, i@) && rest@.len() < i@.len()
                && expression_wf(e@),
        decreases i@.len(), 3int,
    {
        let i1 = trim_start(i);
        match Term::new(i1) {
            Err(e) => Err(Error::in_sequence(Error::in_sequence(e))),
            Ok((r1, t)) => {
                proof {
                    lemma_suffix_transitive(r1@, i1@, i@);
                }
                if let Some(r3) = skip_operator('+', r1) {
                    proof {
                        lemma_suffix_transitive(r3@, r1@, i@);
                    }
                    if let Ok((rest, tail)) = Expression::new(r3) {
                        proof {
                            lemma_suffix_transitive(rest@, r3@, i@);
                        }
                        return Ok((rest, Expression::Add(t, Box::new(tail))));
                    }
                }
                if let Some(r3) = skip_operator('-', r1) {
                    proof {
                        lemma_suffix_transitive(r3@, r1@, i@);
                    }
                    if let Ok((rest, tail)) = Expression::new(r3) {
                        proof {
                            lemma_suffix_transitive(rest@, r3@, i@);
                        }
                        return Ok((rest, Expression::Sub(t, Box::new(tail))));
                    }
                }
                Ok((r1, Expression::Term(t)))
            },
        }
    }
}

/// Parses an arithmetic expression at the front of the text and hands back
/// its tree and the text behind it. Text that follows the expression is no
/// error: it is left over for the caller.
pub fn parser<'a>(i: &'a str) -> (o: Result<(&'a str, Expression<String>), Error>)
    ensures
        expression_outcome(o) == expression_spec(i@),
        o matches Ok((rest, e)) ==> is_suffix(rest@, i@) && rest@.len() < i@.len() && expression_wf(
            e@,
        ),
{
    Expression::new(i)
}

} // verus!
