//! The failure taxonomy shared by every operation of the crate.
use vstd::prelude::*;

verus! {

/// Why an operation could not produce a value.
///
/// Every operation either returns its result or exactly one of these; nothing
/// is retried and nothing is partially applied.
#[derive(Clone, Copy, Debug, PartialEq, Eq, Structural)]
pub enum MathError {
    /// The result exceeds the representable range.
    Overflow,
    /// A subtraction or rescale would go below zero or below a required minimum.
    Underflow,
    /// A divisor was zero.
    DivideByZero,
    /// A rescale would discard a required significant digit.
    PrecisionLoss,
    /// A fractional exponent outside the supported quarter steps.
    InvalidExponent,
    /// A swap or withdrawal would empty or invert a reserve.
    InsufficientLiquidity,
}

impl MathError {
    /// A short stable name of the variant, for logs and messages.
    pub fn name(&self) -> (s: &'static str)
        ensures
            s@ == Self::spec_name(*self),
    {
        match self {
            MathError::Overflow => "overflow",
            MathError::Underflow => "underflow",
            MathError::DivideByZero => "divide by zero",
            MathError::PrecisionLoss => "precision loss",
            MathError::InvalidExponent => "invalid exponent",
            MathError::InsufficientLiquidity => "insufficient liquidity",
        }
    }

    /// The text that [`MathError::name`] returns.
    pub open spec fn spec_name(e: MathError) -> Seq<char> {
        match e {
            MathError::Overflow => "overflow"@,
            MathError::Underflow => "underflow"@,
            MathError::DivideByZero => "divide by zero"@,
            MathError::PrecisionLoss => "precision loss"@,
            MathError::InvalidExponent => "invalid exponent"@,
            MathError::InsufficientLiquidity => "insufficient liquidity"@,
        }
    }
}

} // verus!
