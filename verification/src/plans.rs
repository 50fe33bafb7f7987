//! What the orchestrator asks the host to perform.
//!
//! Each phase returns one of these plans; the driver performs the calls in
//! the order the fields are declared, aborting the whole transaction on
//! the first failure, so that no partial state survives.

use vstd::prelude::*;

use crate::token::TokenId;

verus! {

/// One `swap` request to a pool: transfer the non-zero output side to
/// `to`, and call back with `data` if it is non-empty.
pub struct SwapCall {
    /// The pool to call.
    pub pair: TokenId,
    /// How much of the pool's first token slot to send out.
    pub amount0_out: u128,
    /// How much of the pool's second token slot to send out.
    pub amount1_out: u128,
    /// The recipient of the output.
    pub to: TokenId,
    /// The encoded continuation the pool hands back via the callback;
    /// empty for a plain swap.
    pub data: Vec<u8>,
}

/// One fungible-token transfer.
pub struct TransferCall {
    /// The token to move.
    pub token: TokenId,
    /// The recipient.
    pub recipient: TokenId,
    /// The amount.
    pub amount: u128,
}

/// The user-hook invocation: the integrator's own logic, run while the
/// borrowed funds are held.
pub struct HookCall {
    /// The token borrowed, as the caller named it (native sentinel kept).
    pub token_borrowed: TokenId,
    /// The borrowed amount.
    pub amount: u128,
    /// The token to repay in, as the caller named it.
    pub token_to_repay: TokenId,
    /// The amount owed back to the pool.
    pub amount_to_repay: u128,
    /// The caller's opaque bytes, forwarded unread.
    pub user_data: Vec<u8>,
}

/// The tail of an execute phase, in order: unwrap the borrowed native
/// asset if asked, run the user hook, wrap the repayment if asked, and
/// repay the pool.
pub struct SettlePlan {
    /// Withdraw this much from the wrapped-native token into the outgoing
    /// payment channel first, when the borrowed side was native.
    pub unwrap_amount: Option<u128>,
    /// The user hook to run.
    pub hook: HookCall,
    /// Deposit this much back into the wrapped-native token before
    /// repaying, when the repaid side is native.
    pub wrap_amount: Option<u128>,
    /// The repayment transfer to the pool.
    pub repay: TransferCall,
}

/// The middle of the triangular execute phase, in order: send the borrowed
/// native to the borrow pool, then swap it for the requested token.
pub struct TriangularSwapStep {
    /// The wrapped-native transfer into the borrow pool.
    pub native_transfer: TransferCall,
    /// The plain swap (no callback) that delivers the borrow token.
    pub swap: SwapCall,
}

} // verus!
