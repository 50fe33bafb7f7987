//! The three initiators.
//!
//! Each one turns a classified request and the host's pool lookups into
//! the `swap` request that starts the flash borrow, with the continuation
//! attached, and records the session pair the callback must come from.

use vstd::prelude::*;

use crate::bytes::copy_bytes;
use crate::continuation::{
    spec_encode, Continuation, ContinuationView, Strategy, TrianglePayload, COMMA,
};
use crate::errors::SwapError;
use crate::fees::{cross_token_repay, cross_token_repayment};
use crate::plans::SwapCall;
use crate::split::sep_free;
use crate::swapper::{same_config, FlashSwapper};
use crate::token::{zero_address_digits, TokenId};

verus! {

/// The continuation a same-token loan carries: the repay token is the
/// borrow token itself, and there is no payload.
pub open spec fn loan_continuation(
    token_borrow: Seq<u8>,
    amount: u128,
    is_borrowing_native: bool,
    is_paying_native: bool,
    user_data: Seq<u8>,
) -> ContinuationView {
    ContinuationView {
        strategy: Strategy::SimpleLoan,
        token_borrow: token_borrow,
        amount: amount,
        token_pay: token_borrow,
        is_borrowing_native: is_borrowing_native,
        is_paying_native: is_paying_native,
        payload: Option::None,
        user_data: user_data,
    }
}

/// The continuation a direct swap carries: both tokens, no payload.
pub open spec fn swap_continuation(
    token_borrow: Seq<u8>,
    amount: u128,
    token_pay: Seq<u8>,
    is_borrowing_native: bool,
    is_paying_native: bool,
    user_data: Seq<u8>,
) -> ContinuationView {
    ContinuationView {
        strategy: Strategy::SimpleSwap,
        token_borrow: token_borrow,
        amount: amount,
        token_pay: token_pay,
        is_borrowing_native: is_borrowing_native,
        is_paying_native: is_paying_native,
        payload: Option::None,
        user_data: user_data,
    }
}

/// The continuation a triangular swap carries: the borrow pool's address
/// and the computed native amount ride in the payload, and both native
/// flags are forced false, as the routing rule guarantees.
pub open spec fn triangular_continuation(
    token_borrow: Seq<u8>,
    amount: u128,
    token_pay: Seq<u8>,
    borrow_pool: Seq<u8>,
    amount_of_native: u128,
    user_data: Seq<u8>,
) -> ContinuationView {
    ContinuationView {
        strategy: Strategy::TriangularSwap,
        token_borrow: token_borrow,
        amount: amount,
        token_pay: token_pay,
        is_borrowing_native: false,
        is_paying_native: false,
        payload: Option::Some((borrow_pool, amount_of_native)),
        user_data: user_data,
    }
}

impl FlashSwapper {
    /// Which two tokens the factory must be asked for in a same-token
    /// loan: the borrow token and its companion — the wrapped native
    /// asset, unless the borrow token already is it, in which case the
    /// fixed secondary reference token.
    pub fn simple_flash_loan_query(&self, token_borrow: &TokenId) -> (r: (TokenId, TokenId))
        ensures
            r.0@ == token_borrow@,
            r.1@ == if token_borrow@ == self.wcspr@ {
                self.dai@
            } else {
                self.wcspr@
            },
    {
        let other: TokenId = if token_borrow.same(&self.wcspr) {
            self.dai.duplicate()
        } else {
            self.wcspr.duplicate()
        };
        (token_borrow.duplicate(), other)
    }

    /// Starts a same-token loan against the pool the factory returned.
    /// Records the pool as the session pair, rejects the zero address,
    /// picks the output slot that matches the borrow token, and attaches
    /// the encoded continuation.
    pub fn simple_flash_loan(
        &mut self,
        token_borrow: &TokenId,
        amount: u128,
        is_borrowing_native: bool,
        is_paying_native: bool,
        user_data: &Vec<u8>,
        pair_address: &TokenId,
        token0: &TokenId,
        token1: &TokenId,
    ) -> (r: Result<SwapCall, SwapError>)
        requires
            sep_free(user_data@, COMMA),
        ensures
            same_config(*final(self), *old(self)),
            final(self).permissioned_pair_address matches Some(p) && p@ == pair_address@,
            r is Ok <==> pair_address@ != zero_address_digits(),
            r is Err ==> r == Err::<SwapCall, SwapError>(SwapError::ZeroAddress),
            r matches Ok(call) ==> {
                &&& call.pair@ == pair_address@
                &&& call.amount0_out == (if token_borrow@ == token0@ {
                    amount
                } else {
                    0u128
                })
                &&& call.amount1_out == (if token_borrow@ == token1@ {
                    amount
                } else {
                    0u128
                })
                &&& call.to@ == old(self).package_hash@
                &&& call.data@ == spec_encode(
                    loan_continuation(
                        token_borrow@,
                        amount,
                        is_borrowing_native,
                        is_paying_native,
                        user_data@,
                    ),
                )
            },
    {
        self.permissioned_pair_address = Some(pair_address.duplicate());
        if pair_address.is_zero_address() {
            return Err(SwapError::ZeroAddress);
        }
        let amount0_out: u128 = if token_borrow.same(token0) {
            amount
        } else {
            0
        };
        let amount1_out: u128 = if token_borrow.same(token1) {
            amount
        } else {
            0
        };
        let cont = Continuation {
            strategy: Strategy::SimpleLoan,
            token_borrow: token_borrow.duplicate(),
            amount,
            token_pay: token_borrow.duplicate(),
            is_borrowing_native,
            is_paying_native,
            payload: None,
            user_data: copy_bytes(user_data),
        };
        let data: Vec<u8> = cont.encode();
        Ok(
            SwapCall {
                pair: pair_address.duplicate(),
                amount0_out,
                amount1_out,
                to: self.package_hash.duplicate(),
                data,
            },
        )
    }

    /// Starts a direct swap against the literal borrow/pay pool.  Records
    /// the pool as the session pair, rejects the zero address, picks the
    /// output slot, and attaches the encoded continuation.
    pub fn simple_flash_swap(
        &mut self,
        token_borrow: &TokenId,
        amount: u128,
        token_pay: &TokenId,
        is_borrowing_native: bool,
        is_paying_native: bool,
        user_data: &Vec<u8>,
        pair_address: &TokenId,
        token0: &TokenId,
        token1: &TokenId,
    ) -> (r: Result<SwapCall, SwapError>)
        requires
            sep_free(user_data@, COMMA),
        ensures
            same_config(*final(self), *old(self)),
            final(self).permissioned_pair_address matches Some(p) && p@ == pair_address@,
            r is Ok <==> pair_address@ != zero_address_digits(),
            r is Err ==> r == Err::<SwapCall, SwapError>(SwapError::PairNotAvailable),
            r matches Ok(call) ==> {
                &&& call.pair@ == pair_address@
                &&& call.amount0_out == (if token_borrow@ == token0@ {
                    amount
                } else {
                    0u128
                })
                &&& call.amount1_out == (if token_borrow@ == token1@ {
                    amount
                } else {
                    0u128
                })
                &&& call.to@ == old(self).package_hash@
                &&& call.data@ == spec_encode(
                    swap_continuation(
                        token_borrow@,
                        amount,
                        token_pay@,
                        is_borrowing_native,
                        is_paying_native,
                        user_data@,
                    ),
                )
            },
    {
        self.permissioned_pair_address = Some(pair_address.duplicate());
        if pair_address.is_zero_address() {
            return Err(SwapError::PairNotAvailable);
        }
        let amount0_out: u128 = if token_borrow.same(token0) {
            amount
        } else {
            0
        };
        let amount1_out: u128 = if token_borrow.same(token1) {
            amount
        } else {
            0
        };
        let cont = Continuation {
            strategy: Strategy::SimpleSwap,
            token_borrow: token_borrow.duplicate(),
            amount,
            token_pay: token_pay.duplicate(),
            is_borrowing_native,
            is_paying_native,
            payload: None,
            user_data: copy_bytes(user_data),
        };
        let data: Vec<u8> = cont.encode();
        Ok(
            SwapCall {
                pair: pair_address.duplicate(),
                amount0_out,
                amount1_out,
                to: self.package_hash.duplicate(),
                data,
            },
        )
    }

    /// Checks the two pools a triangular swap needs — borrow/native and
    /// pay/native — and records the pay pool as the session pair.  The
    /// borrow pool is rejected before any state changes; the pay pool is
    /// recorded, then rejected if absent.
    pub fn triangular_flash_swap(
        &mut self,
        borrow_pair_address: &TokenId,
        pay_pair_address: &TokenId,
    ) -> (r: Result<(), SwapError>)
        ensures
            same_config(*final(self), *old(self)),
            borrow_pair_address@ == zero_address_digits() ==> r == Err::<(), SwapError>(
                SwapError::BorrowTokenNotAvailable,
            ) && final(self).permissioned_pair_address == old(self).permissioned_pair_address,
            borrow_pair_address@ != zero_address_digits() ==> (final(self).permissioned_pair_address
                matches Some(p) && p@ == pay_pair_address@),
            borrow_pair_address@ != zero_address_digits() && pay_pair_address@
                == zero_address_digits() ==> r == Err::<(), SwapError>(
                SwapError::PayTokenNotAvailable,
            ),
            r is Ok <==> (borrow_pair_address@ != zero_address_digits() && pay_pair_address@
                != zero_address_digits()),
    {
        if borrow_pair_address.is_zero_address() {
            return Err(SwapError::BorrowTokenNotAvailable);
        }
        self.permissioned_pair_address = Some(pay_pair_address.duplicate());
        if pay_pair_address.is_zero_address() {
            return Err(SwapError::PayTokenNotAvailable);
        }
        Ok(())
    }

    /// How much wrapped native the borrow pool will demand for `amount` of
    /// the borrow token: rejects a request beyond the pool's balance, then
    /// quotes against the post-withdrawal reserve.
    pub fn triangular_flash_swap_quote(
        &self,
        amount: u128,
        pair_balance_token_borrow_before: u128,
        pair_balance_wcspr: u128,
    ) -> (r: Result<u128, SwapError>)
        ensures
            pair_balance_token_borrow_before < amount ==> r == Err::<u128, SwapError>(
                SwapError::AmountTooBig,
            ),
            pair_balance_token_borrow_before >= amount ==> {
                &&& pair_balance_token_borrow_before == amount ==> r == Err::<u128, SwapError>(
                    SwapError::DivideByZero,
                )
                &&& pair_balance_token_borrow_before > amount ==> {
                    &&& (r is Ok <==> cross_token_repay(
                        pair_balance_wcspr as int,
                        pair_balance_token_borrow_before - amount,
                        amount as int,
                    ) <= u128::MAX)
                    &&& (r matches Ok(v) ==> v == cross_token_repay(
                        pair_balance_wcspr as int,
                        pair_balance_token_borrow_before - amount,
                        amount as int,
                    ))
                    &&& (r is Err ==> r == Err::<u128, SwapError>(SwapError::QuoteOverflow))
                }
            },
    {
        if pair_balance_token_borrow_before < amount {
            return Err(SwapError::AmountTooBig);
        }
        let pair_balance_token_borrow_after: u128 = match pair_balance_token_borrow_before
            .checked_sub(amount) {
            Some(v) => v,
            None => {
                return Err(SwapError::Underflow);
            },
        };
        cross_token_repayment(pair_balance_wcspr, pair_balance_token_borrow_after, amount)
    }

    /// Builds the pay pool's `swap` request that flash-borrows the quoted
    /// native amount, attaching the triangular continuation.  The output
    /// slot is the one holding the wrapped native asset.
    pub fn triangular_flash_swap_helper(
        &self,
        token_borrow: &TokenId,
        amount: u128,
        token_pay: &TokenId,
        borrow_pair_address: &TokenId,
        pay_pair_address: &TokenId,
        amount_of_wcspr: u128,
        user_data: &Vec<u8>,
        token0: &TokenId,
        token1: &TokenId,
    ) -> (call: SwapCall)
        requires
            sep_free(user_data@, COMMA),
        ensures
            call.pair@ == pay_pair_address@,
            call.amount0_out == (if self.wcspr@ == token0@ {
                amount_of_wcspr
            } else {
                0u128
            }),
            call.amount1_out == (if self.wcspr@ == token1@ {
                amount_of_wcspr
            } else {
                0u128
            }),
            call.to@ == self.package_hash@,
            call.data@ == spec_encode(
                triangular_continuation(
                    token_borrow@,
                    amount,
                    token_pay@,
                    borrow_pair_address@,
                    amount_of_wcspr,
                    user_data@,
                ),
            ),
    {
        let amount0_out: u128 = if self.wcspr.same(token0) {
            amount_of_wcspr
        } else {
            0
        };
        let amount1_out: u128 = if self.wcspr.same(token1) {
            amount_of_wcspr
        } else {
            0
        };
        let cont = Continuation {
            strategy: Strategy::TriangularSwap,
            token_borrow: token_borrow.duplicate(),
            amount,
            token_pay: token_pay.duplicate(),
            is_borrowing_native: false,
            is_paying_native: false,
            payload: Some(
                TrianglePayload {
                    repay_pool: borrow_pair_address.duplicate(),
                    amount_of_native: amount_of_wcspr,
                },
            ),
            user_data: copy_bytes(user_data),
        };
        let data: Vec<u8> = cont.encode();
        SwapCall {
            pair: pay_pair_address.duplicate(),
            amount0_out,
            amount1_out,
            to: self.package_hash.duplicate(),
            data,
        }
    }
}

} // verus!
