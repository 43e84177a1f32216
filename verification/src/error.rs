use vstd::prelude::*;

verus! {

/// Why a quote was refused.
#[derive(Clone, Copy, Debug, PartialEq, Eq, Structural)]
pub enum CpmmError {
    /// Zero input, an unsupported side/amount combination, or a zero output.
    InvalidAmount,
    /// Empty reserves or zero LP supply.
    ZeroBalance,
    /// `fee_bps` of 10 000 or more.
    InvalidFee,
    /// The quote is below the caller's floor.
    SlippageExceeded,
    /// An intermediate product does not fit in 128 bits (or a divisor is zero).
    Overflow,
    /// A reserve would go negative in a composed operation.
    Underflow,
}

/// Result of a quote.
pub type CpmmResult<T> = Result<T, CpmmError>;

} // verus!
