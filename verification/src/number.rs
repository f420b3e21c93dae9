//! Numbers and their arithmetic.
/// The error of a calculation.
pub mod error;
/// The floating-point arithmetic that the numbers are computed with.
pub mod float;
/// What holds of the arithmetic on numbers.
pub mod laws;
/// The numbers and their operations.
pub mod number;
/// Integer powers in 64 bits.
pub mod power;

pub use error::{Error, ErrorKind};
pub use float::Float;
pub use number::Number;
