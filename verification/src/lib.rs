//! Flash-swap orchestration core.
//!
//! A caller borrows a token from a constant-product liquidity pool, runs its
//! own logic while holding the funds, and repays within the same atomic
//! transaction.  The library decides which of three borrow/repay strategies
//! applies, computes the fee-adjusted repayment amount for each, and carries
//! state across the pool's callback in an encoded continuation record.
//!
//! Everything that decides or computes is here and verified; the host calls
//! themselves (factory and pool queries, token transfers, the user hook) are
//! returned to the caller as plan values to perform.

pub mod bytes;
pub mod continuation;
pub mod decimal;
pub mod errors;
pub mod execute;
pub mod fees;
pub mod initiate;
pub mod plans;
pub mod split;
pub mod swapper;
pub mod token;
