use vstd::prelude::*;

verus! {

/// The decimal digits `0` to `9`.
pub open spec fn is_digit(c: char) -> bool {
    '0' <= c && c <= '9'
}

/// Text made of decimal digits and exactly one point, with a digit on at
/// least one side of it: `1.5`, `12.`, `.25`.
pub open spec fn is_decimal_text(text: Seq<char>) -> bool {
    exists|k: int|
        {
            &&& 0 <= k < text.len()
            &&& text.len() >= 2
            &&& #[trigger] text[k] == '.'
            &&& forall|j: int| 0 <= j < text.len() && j != k ==> is_digit(#[trigger] text[j])
        }
}

/// The floating-point arithmetic that numbers are computed with.
///
/// The library decides which operation is applied to which operands and in
/// which order; what each operation yields is the implementor's business.
/// A contract of the library therefore speaks of a floating-point result as
/// of "a value that the operation may return on these operands".
pub trait Float: Sized + Copy {
    /// The floating-point value nearest to an integer.
    fn from_int(value: i64) -> Self;

    /// The floating-point value that a decimal literal denotes.
    fn from_decimal(text: &str) -> Self
        requires
            is_decimal_text(text@),
    ;

    /// The integer that the value is truncated to.
    fn to_int(self) -> i64;

    /// Whether the value is zero, of either sign.
    fn is_zero(self) -> bool;

    /// The sum.
    fn plus(self, rhs: Self) -> Self;

    /// The difference.
    fn minus(self, rhs: Self) -> Self;

    /// The product.
    fn times(self, rhs: Self) -> Self;

    /// The quotient.
    fn over(self, rhs: Self) -> Self;

    /// The value raised to the power `rhs`.
    fn powf(self, rhs: Self) -> Self;
}

} // verus!
