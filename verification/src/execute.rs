//! The three execute phases.
//!
//! Each runs after the callback, when the contract holds the borrowed
//! funds, and turns the decoded continuation and the host's balance
//! queries into the settlement plan: unwrap if the borrow was native, run
//! the user hook, wrap if the repayment is native, repay the pool.

use vstd::prelude::*;

use crate::bytes::copy_bytes;
use crate::errors::SwapError;
use crate::fees::{
    cross_token_repay, cross_token_repayment, same_token_repay, same_token_repayment,
};
use crate::plans::{HookCall, SettlePlan, SwapCall, TransferCall, TriangularSwapStep};
use crate::swapper::FlashSwapper;
use crate::token::TokenId;

verus! {

impl FlashSwapper {
    /// Settles a same-token loan: the repayment is the amount plus the
    /// same-token fee, owed in the borrow token to the pool that called
    /// back.  The hook sees the caller's own token identities, with the
    /// native sentinel restored where a side was native.
    pub fn simple_flash_loan_execute(
        &self,
        token_borrow: &TokenId,
        amount: u128,
        pair_address: &TokenId,
        is_borrowing_native: bool,
        is_paying_native: bool,
        user_data: &Vec<u8>,
    ) -> (r: Result<SettlePlan, SwapError>)
        ensures
            r is Ok <==> same_token_repay(amount as int) <= u128::MAX,
            r is Err ==> r == Err::<SettlePlan, SwapError>(SwapError::RepayOverflow),
            r matches Ok(plan) ==> {
                &&& plan.unwrap_amount == (if is_borrowing_native {
                    Some(amount)
                } else {
                    None::<u128>
                })
                &&& plan.hook.token_borrowed@ == (if is_borrowing_native {
                    self.cspr@
                } else {
                    token_borrow@
                })
                &&& plan.hook.amount == amount
                &&& plan.hook.token_to_repay@ == (if is_paying_native {
                    self.cspr@
                } else {
                    token_borrow@
                })
                &&& plan.hook.amount_to_repay == same_token_repay(amount as int)
                &&& plan.hook.user_data@ == user_data@
                &&& plan.wrap_amount == (if is_paying_native {
                    Some((same_token_repay(amount as int)) as u128)
                } else {
                    None::<u128>
                })
                &&& plan.repay.token@ == token_borrow@
                &&& plan.repay.recipient@ == pair_address@
                &&& plan.repay.amount == same_token_repay(amount as int)
            },
    {
        let (_fee, amount_to_repay) = match same_token_repayment(amount) {
            Ok(p) => p,
            Err(e) => {
                return Err(e);
            },
        };
        let token_borrowed: TokenId = if is_borrowing_native {
            self.cspr.duplicate()
        } else {
            token_borrow.duplicate()
        };
        let token_to_repay: TokenId = if is_paying_native {
            self.cspr.duplicate()
        } else {
            token_borrow.duplicate()
        };
        Ok(
            SettlePlan {
                unwrap_amount: if is_borrowing_native {
                    Some(amount)
                } else {
                    None
                },
                hook: HookCall {
                    token_borrowed,
                    amount,
                    token_to_repay,
                    amount_to_repay,
                    user_data: copy_bytes(user_data),
                },
                wrap_amount: if is_paying_native {
                    Some(amount_to_repay)
                } else {
                    None
                },
                repay: TransferCall {
                    token: token_borrow.duplicate(),
                    recipient: pair_address.duplicate(),
                    amount: amount_to_repay,
                },
            },
        )
    }

    /// Settles a direct swap: the repayment is the inverse constant-product
    /// quote of the pool's two balances, owed in the pay token.
    pub fn simple_flash_swap_execute(
        &self,
        token_borrow: &TokenId,
        amount: u128,
        token_pay: &TokenId,
        pair_address: &TokenId,
        is_borrowing_native: bool,
        is_paying_native: bool,
        user_data: &Vec<u8>,
        pair_balance_token_borrow: u128,
        pair_balance_token_pay: u128,
    ) -> (r: Result<SettlePlan, SwapError>)
        ensures
            pair_balance_token_borrow == 0 ==> r == Err::<SettlePlan, SwapError>(
                SwapError::DivideByZero,
            ),
            pair_balance_token_borrow > 0 ==> {
                &&& (r is Ok <==> cross_token_repay(
                    pair_balance_token_pay as int,
                    pair_balance_token_borrow as int,
                    amount as int,
                ) <= u128::MAX)
                &&& (r is Err ==> r == Err::<SettlePlan, SwapError>(SwapError::QuoteOverflow))
            },
            r matches Ok(plan) ==> {
                &&& plan.unwrap_amount == (if is_borrowing_native {
                    Some(amount)
                } else {
                    None::<u128>
                })
                &&& plan.hook.token_borrowed@ == (if is_borrowing_native {
                    self.cspr@
                } else {
                    token_borrow@
                })
                &&& plan.hook.amount == amount
                &&& plan.hook.token_to_repay@ == (if is_paying_native {
                    self.cspr@
                } else {
                    token_pay@
                })
                &&& plan.hook.amount_to_repay == cross_token_repay(
                    pair_balance_token_pay as int,
                    pair_balance_token_borrow as int,
                    amount as int,
                )
                &&& plan.hook.user_data@ == user_data@
                &&& plan.wrap_amount == (if is_paying_native {
                    Some(plan.hook.amount_to_repay)
                } else {
                    None::<u128>
                })
                &&& plan.repay.token@ == token_pay@
                &&& plan.repay.recipient@ == pair_address@
                &&& plan.repay.amount == plan.hook.amount_to_repay
            },
    {
        let amount_to_repay: u128 = match cross_token_repayment(
            pair_balance_token_pay,
            pair_balance_token_borrow,
            amount,
        ) {
            Ok(v) => v,
            Err(e) => {
                return Err(e);
            },
        };
        let token_borrowed: TokenId = if is_borrowing_native {
            self.cspr.duplicate()
        } else {
            token_borrow.duplicate()
        };
        let token_to_repay: TokenId = if is_paying_native {
            self.cspr.duplicate()
        } else {
            token_pay.duplicate()
        };
        Ok(
            SettlePlan {
                unwrap_amount: if is_borrowing_native {
                    Some(amount)
                } else {
                    None
                },
                hook: HookCall {
                    token_borrowed,
                    amount,
                    token_to_repay,
                    amount_to_repay,
                    user_data: copy_bytes(user_data),
                },
                wrap_amount: if is_paying_native {
                    Some(amount_to_repay)
                } else {
                    None
                },
                repay: TransferCall {
                    token: token_pay.duplicate(),
                    recipient: pair_address.duplicate(),
                    amount: amount_to_repay,
                },
            },
        )
    }

    /// The middle of the triangular execute phase: with the borrowed
    /// native in hand, send the payload's native amount to the borrow
    /// pool and swap it for the requested borrow token, with no callback.
    pub fn triangular_flash_swap_execute(
        &self,
        token_borrow: &TokenId,
        amount: u128,
        borrow_pair_address: &TokenId,
        amount_of_wcspr: u128,
        token0: &TokenId,
        token1: &TokenId,
    ) -> (step: TriangularSwapStep)
        ensures
            step.native_transfer.token@ == self.wcspr@,
            step.native_transfer.recipient@ == borrow_pair_address@,
            step.native_transfer.amount == amount_of_wcspr,
            step.swap.pair@ == borrow_pair_address@,
            step.swap.amount0_out == (if token_borrow@ == token0@ {
                amount
            } else {
                0u128
            }),
            step.swap.amount1_out == (if token_borrow@ == token1@ {
                amount
            } else {
                0u128
            }),
            step.swap.to@ == self.package_hash@,
            step.swap.data@.len() == 0,
    {
        let amount0_out: u128 = if token_borrow.same(token0) {
            amount
        } else {
            0
        };
        let amount1_out: u128 = if token_borrow.same(token1) {
            amount
        } else {
            0
        };
        TriangularSwapStep {
            native_transfer: TransferCall {
                token: self.wcspr.duplicate(),
                recipient: borrow_pair_address.duplicate(),
                amount: amount_of_wcspr,
            },
            swap: SwapCall {
                pair: borrow_pair_address.duplicate(),
                amount0_out,
                amount1_out,
                to: self.package_hash.duplicate(),
                data: Vec::new(),
            },
        }
    }

    /// Settles a triangular swap: the repayment is the inverse
    /// constant-product quote of the pay pool's balances against the
    /// native amount that was flash-borrowed, owed in the pay token to the
    /// recorded session pool.  The hook sees the outer borrow and pay
    /// identities unsubstituted — neither side is native on this route.
    pub fn triangular_flash_swap_settle(
        &self,
        token_borrow: &TokenId,
        amount: u128,
        token_pay: &TokenId,
        amount_of_wcspr: u128,
        user_data: &Vec<u8>,
        pair_balance_wcspr: u128,
        pair_balance_token_pay: u128,
    ) -> (r: Result<SettlePlan, SwapError>)
        requires
            self.permissioned_pair_address is Some,
        ensures
            pair_balance_wcspr == 0 ==> r == Err::<SettlePlan, SwapError>(SwapError::DivideByZero),
            pair_balance_wcspr > 0 ==> {
                &&& (r is Ok <==> cross_token_repay(
                    pair_balance_token_pay as int,
                    pair_balance_wcspr as int,
                    amount_of_wcspr as int,
                ) <= u128::MAX)
                &&& (r is Err ==> r == Err::<SettlePlan, SwapError>(SwapError::QuoteOverflow))
            },
            r matches Ok(plan) ==> {
                &&& plan.unwrap_amount is None
                &&& plan.hook.token_borrowed@ == token_borrow@
                &&& plan.hook.amount == amount
                &&& plan.hook.token_to_repay@ == token_pay@
                &&& plan.hook.amount_to_repay == cross_token_repay(
                    pair_balance_token_pay as int,
                    pair_balance_wcspr as int,
                    amount_of_wcspr as int,
                )
                &&& plan.hook.user_data@ == user_data@
                &&& plan.wrap_amount is None
                &&& plan.repay.token@ == token_pay@
                &&& plan.repay.recipient@ == self.permissioned_pair_address.unwrap()@
                &&& plan.repay.amount == plan.hook.amount_to_repay
            },
    {
        let amount_to_repay: u128 = match cross_token_repayment(
            pair_balance_token_pay,
            pair_balance_wcspr,
            amount_of_wcspr,
        ) {
            Ok(v) => v,
            Err(e) => {
                return Err(e);
            },
        };
        let pay_pair_address: TokenId = match &self.permissioned_pair_address {
            Some(p) => p.duplicate(),
            None => {
                return Err(SwapError::PermissionedPairAccess);
            },
        };
        Ok(
            SettlePlan {
                unwrap_amount: None,
                hook: HookCall {
                    token_borrowed: token_borrow.duplicate(),
                    amount,
                    token_to_repay: token_pay.duplicate(),
                    amount_to_repay,
                    user_data: copy_bytes(user_data),
                },
                wrap_amount: None,
                repay: TransferCall {
                    token: token_pay.duplicate(),
                    recipient: pay_pair_address,
                    amount: amount_to_repay,
                },
            },
        )
    }
}

} // verus!
