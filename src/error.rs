//! The ways an operation of the pool can fail.
use vstd::prelude::*;

verus! {

/// Every failure aborts the whole call; the host then discards its writes.
#[derive(Clone, Copy, Debug, PartialEq, Eq, Structural)]
pub enum PoolError {
    /// An iteration of the curve math ran its full bound without settling.
    DoesNotConverge,
    /// A division by zero, or a supply that must be positive is zero.
    DegenerateState,
    /// A deposit did not raise the invariant.
    InvariantNotIncreasing,
    /// An output fell below its minimum, or a burn rose above its maximum.
    SlippageExceeded,
    /// A coin of a balanced withdrawal came out below its minimum.
    WithdrawalBelowMin,
    /// The caller holds fewer liquidity units than it asked to burn.
    InsufficientBalance,
    /// The pool holds less of a coin than a withdrawal asks for.
    InsufficientPoolBalance,
    /// Only the owner may do this.
    Unauthorized,
    /// A parameter or an incoming transfer is not acceptable.
    BadParameter,
    /// A stored value could not be decoded.
    StorageError,
    /// An intermediate result does not fit in 256 bits, or went below zero.
    Overflow,
}

} // verus!
