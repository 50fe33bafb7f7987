//! The orchestrator's state, the router, and the callback dispatcher.
//!
//! The host performs the external calls (factory and pool queries, token
//! transfers); every decision between those calls is made here.  A driver
//! asks [`FlashSwapper::start_swap`] which strategy applies, runs the
//! matching initiator, performs the returned `swap` request, and, when the
//! pool calls back, hands caller, declared initiator and continuation bytes
//! to [`FlashSwapper::uniswap_v2_call`], which authenticates and decodes.

use vstd::prelude::*;

use crate::continuation::{spec_decode, Continuation, Strategy};
use crate::errors::SwapError;
use crate::token::{zero_address_digits, TokenId};

verus! {

/// Which strategy a borrow/pay pair selects, after native-asset
/// substitution.
pub open spec fn spec_route(borrow: Seq<u8>, pay: Seq<u8>, wcspr: Seq<u8>) -> Strategy {
    if borrow == pay {
        Strategy::SimpleLoan
    } else if borrow == wcspr || pay == wcspr {
        Strategy::SimpleSwap
    } else {
        Strategy::TriangularSwap
    }
}

/// The router is total and its three branches are mutually exclusive:
/// every pair of (normalized) tokens selects exactly one strategy.
pub proof fn lemma_route_total_and_exclusive(borrow: Seq<u8>, pay: Seq<u8>, wcspr: Seq<u8>)
    ensures
        spec_route(borrow, pay, wcspr) is SimpleLoan <==> borrow == pay,
        spec_route(borrow, pay, wcspr) is SimpleSwap <==> (borrow != pay && (borrow == wcspr
            || pay == wcspr)),
        spec_route(borrow, pay, wcspr) is TriangularSwap <==> (borrow != pay && borrow != wcspr
            && pay != wcspr),
        spec_route(borrow, pay, wcspr) is SimpleLoan || spec_route(borrow, pay, wcspr)
            is SimpleSwap || spec_route(borrow, pay, wcspr) is TriangularSwap,
{
}

/// The classification of one borrow/pay request.
pub struct Route {
    /// The selected strategy.
    pub strategy: Strategy,
    /// The borrow token, with the native sentinel replaced by the wrapped
    /// native asset.
    pub token_borrow: TokenId,
    /// The pay token, likewise normalized.
    pub token_pay: TokenId,
    /// Whether the caller asked to borrow the native asset.
    pub is_borrowing_native: bool,
    /// Whether the caller asked to repay in the native asset.
    pub is_paying_native: bool,
}

/// The orchestrator: read-only configuration, set once, and the transient
/// session pair address of the initiate -> callback round trip in flight.
///
/// The session address is valid only inside one round trip: the host's
/// execution model runs the callback synchronously within the same
/// transaction.  A host that interleaves transactions must hold one
/// orchestrator value per transaction in flight, keyed by its identity;
/// this state is deliberately an explicit value, not a global.
pub struct FlashSwapper {
    /// The wrapped-native-asset token.
    pub wcspr: TokenId,
    /// The native-asset sentinel: the zero address.
    pub cspr: TokenId,
    /// The companion token for same-token loans of the wrapped native
    /// asset itself.
    pub dai: TokenId,
    /// The pair factory.
    pub uniswap_v2_factory: TokenId,
    /// This contract's call hash.
    pub contract_hash: TokenId,
    /// This contract's package hash: the identity pools must name as the
    /// swap initiator.
    pub package_hash: TokenId,
    /// The pool currently in flight, recorded by an initiator immediately
    /// before it requests the pool's `swap`.
    pub permissioned_pair_address: Option<TokenId>,
}

/// True when the two states carry the same configuration.
pub open spec fn same_config(a: FlashSwapper, b: FlashSwapper) -> bool {
    &&& a.wcspr@ == b.wcspr@
    &&& a.cspr@ == b.cspr@
    &&& a.dai@ == b.dai@
    &&& a.uniswap_v2_factory@ == b.uniswap_v2_factory@
    &&& a.contract_hash@ == b.contract_hash@
    &&& a.package_hash@ == b.package_hash@
}

impl FlashSwapper {
    /// Sets the process-wide configuration, once, before any entry point
    /// is reachable.  The native-asset sentinel is the zero address.
    pub fn init(
        wcspr: TokenId,
        dai: TokenId,
        uniswap_v2_factory: TokenId,
        contract_hash: TokenId,
        package_hash: TokenId,
    ) -> (s: FlashSwapper)
        ensures
            s.wcspr@ == wcspr@,
            s.cspr@ == zero_address_digits(),
            s.dai@ == dai@,
            s.uniswap_v2_factory@ == uniswap_v2_factory@,
            s.contract_hash@ == contract_hash@,
            s.package_hash@ == package_hash@,
            s.permissioned_pair_address is None,
    {
        FlashSwapper {
            wcspr,
            cspr: TokenId::zero_address(),
            dai,
            uniswap_v2_factory,
            contract_hash,
            package_hash,
            permissioned_pair_address: None,
        }
    }

    /// The router: substitutes the wrapped native asset for the native
    /// sentinel on both sides, records which sides were native, and
    /// classifies the pair.  Pure; every validation is deferred to the
    /// initiator that needs pool data.
    pub fn start_swap(&self, token_borrow: &TokenId, token_pay: &TokenId) -> (r: Route)
        ensures
            r.is_borrowing_native == (token_borrow@ == self.cspr@),
            r.is_paying_native == (token_pay@ == self.cspr@),
            r.token_borrow@ == if token_borrow@ == self.cspr@ {
                self.wcspr@
            } else {
                token_borrow@
            },
            r.token_pay@ == if token_pay@ == self.cspr@ {
                self.wcspr@
            } else {
                token_pay@
            },
            r.strategy == spec_route(r.token_borrow@, r.token_pay@, self.wcspr@),
            // a native side is substituted with the wrapped native asset,
            // which the triangular branch excludes on both sides
            r.strategy is TriangularSwap ==> !r.is_borrowing_native && !r.is_paying_native,
    {
        let mut is_borrowing_native: bool = false;
        let mut is_paying_native: bool = false;
        let mut borrow: TokenId = token_borrow.duplicate();
        let mut pay: TokenId = token_pay.duplicate();
        if borrow.same(&self.cspr) {
            is_borrowing_native = true;
            borrow = self.wcspr.duplicate();
        }
        if pay.same(&self.cspr) {
            is_paying_native = true;
            pay = self.wcspr.duplicate();
        }
        let strategy: Strategy = if borrow.same(&pay) {
            Strategy::SimpleLoan
        } else if borrow.same(&self.wcspr) || pay.same(&self.wcspr) {
            Strategy::SimpleSwap
        } else {
            Strategy::TriangularSwap
        };
        Route { strategy, token_borrow: borrow, token_pay: pay, is_borrowing_native, is_paying_native }
    }

    /// The callback entry point's authentication and decoding.  The pool
    /// calls back after transferring funds; the call is accepted only when
    /// the caller is exactly the recorded session pair and the pool's
    /// declared initiator is this contract's package.  Only then is the
    /// continuation decoded; the strategy it carries names the execute
    /// phase to run, with the caller as the repayment pool.
    pub fn uniswap_v2_call(&self, caller: &TokenId, sender: &TokenId, data: &Vec<u8>) -> (r:
        Result<Continuation, SwapError>)
        ensures
            !(self.permissioned_pair_address matches Some(p) && p@ == caller@) ==> r == Err::<
                Continuation,
                SwapError,
            >(SwapError::PermissionedPairAccess),
            (self.permissioned_pair_address matches Some(p) && p@ == caller@) && sender@
                != self.package_hash@ ==> r == Err::<Continuation, SwapError>(
                SwapError::InvalidContractAddress,
            ),
            (self.permissioned_pair_address matches Some(p) && p@ == caller@) && sender@
                == self.package_hash@ ==> {
                &&& (r matches Ok(c) ==> spec_decode(data@) == Some(c@) && c.wf())
                &&& (r is Ok <==> spec_decode(data@) is Some)
                &&& (r is Err ==> r == Err::<Continuation, SwapError>(
                    SwapError::MalformedContinuation,
                ))
            },
    {
        let authorized: bool = match &self.permissioned_pair_address {
            Option::Some(p) => p.same(caller),
            Option::None => false,
        };
        if !authorized {
            return Err(SwapError::PermissionedPairAccess);
        }
        if !sender.same(&self.package_hash) {
            return Err(SwapError::InvalidContractAddress);
        }
        Continuation::decode(data)
    }
}

} // verus!
