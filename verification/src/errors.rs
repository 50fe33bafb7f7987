//! Every failure of the orchestration core.
//!
//! There is no local recovery: each of these aborts the whole multi-step
//! operation, and no partial state may survive the abort.

use vstd::prelude::*;

verus! {

/// A fatal condition raised somewhere along the initiate -> callback ->
/// execute -> repay chain.
#[derive(Clone, Copy, Debug, PartialEq, Eq, Structural)]
pub enum SwapError {
    /// The factory returned the zero address for the requested pool
    /// (same-token strategy).
    ZeroAddress,
    /// The factory returned the zero address for the borrow/pay pool
    /// (direct-swap strategy).
    PairNotAvailable,
    /// The factory returned the zero address for the borrow/native pool
    /// (triangular strategy).
    BorrowTokenNotAvailable,
    /// The factory returned the zero address for the pay/native pool
    /// (triangular strategy).
    PayTokenNotAvailable,
    /// The requested borrow amount exceeds the borrow pool's balance.
    AmountTooBig,
    /// A balance subtraction went below zero.
    Underflow,
    /// The same-token repayment total left the numeric width.
    RepayOverflow,
    /// The cross-token repayment quote left the numeric width.
    QuoteOverflow,
    /// A repayment quote divided by a zero reserve.
    DivideByZero,
    /// The callback caller is not the pool recorded for the session.
    PermissionedPairAccess,
    /// The callback's declared initiator is not this contract.
    InvalidContractAddress,
    /// The continuation record handed back by the pool does not parse.
    MalformedContinuation,
}

} // verus!
