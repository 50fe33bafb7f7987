//! Constant-product fee and repayment arithmetic.
//!
//! Each swap leg charges 3/1000 of the amount moved, so repayment quotes
//! divide by 997 and always add one rounding unit so the pool is never
//! under-paid by truncation:
//!
//! * same-token loan: `amount + amount * 3 / 997 + 1`;
//! * cross-token swap: `1000 * reserve_in * amount_removed
//!   / (997 * reserve_out) + 1`, the inverse constant-product quote.
//!
//! Amounts are held as `u128`.  The intermediate products are computed
//! exactly, without any width limit, so the only arithmetic failures are a
//! quote that itself leaves the amount width, and a zero divisor.

use vstd::prelude::*;

use vstd::arithmetic::div_mod::{
    lemma_div_denominator, lemma_div_is_ordered, lemma_div_is_ordered_by_denominator,
    lemma_fundamental_div_mod, lemma_fundamental_div_mod_converse_div,
    lemma_fundamental_div_mod_converse_mod,
};
use vstd::arithmetic::mul::lemma_mul_inequality;

use crate::errors::SwapError;

verus! {

/// The fee a same-token loan of `amount` carries.
pub open spec fn same_token_fee(amount: int) -> int {
    amount * 3 / 997 + 1
}

/// What a same-token loan of `amount` must pay back.
pub open spec fn same_token_repay(amount: int) -> int {
    amount + same_token_fee(amount)
}

/// What must flow into a pool holding `reserve_in` of the repaid token so
/// that removing `amount_removed` against `reserve_out` was a
/// fee-adjusted-fair trade.
pub open spec fn cross_token_repay(reserve_in: int, reserve_out: int, amount_removed: int) -> int
    recommends
        reserve_out > 0,
{
    1000 * reserve_in * amount_removed / (997 * reserve_out) + 1
}

/// The quotient and remainder of `a0 * b` by `c`, for `a0 < c`.
///
/// Runs a binary decomposition of `b`, so no intermediate value leaves
/// `u128`: the quotient is bounded by `b` because `a0 < c`.
fn mul_div_small(a0: u128, b: u128, c: u128) -> (r: (u128, u128))
    requires
        c > 0,
        a0 < c,
    ensures
        r.0 == a0 as int * b as int / (c as int),
        r.1 == a0 as int * b as int % (c as int),
        r.0 <= b,
    decreases b,
{
    if b == 0 {
        assert(a0 as int * 0 == 0) by (nonlinear_arith);
        (0, 0)
    } else {
        let b2: u128 = b / 2;
        let t: u128 = b % 2;
        let (q2, r2) = mul_div_small(a0, b2, c);
        // a0 * b == 2 * (a0 * b2) + t * a0
        assert(a0 as int * b as int == 2 * (a0 as int * b2 as int) + t as int * a0 as int)
            by (nonlinear_arith)
            requires
                b as int == 2 * b2 as int + t as int,
        ;
        proof {
            lemma_fundamental_div_mod(a0 as int * b2 as int, c as int);
        }
        // double: a0 * 2 * b2 == (2 * q2 + {0, 1}) * c + r3 with r3 < c
        let (q3, r3): (u128, u128) = if r2 >= c - r2 {
            (2 * q2 + 1, r2 - (c - r2))
        } else {
            (2 * q2, r2 + r2)
        };
        assert(2 * (a0 as int * b2 as int) == q3 as int * c as int + r3 as int && r3 < c)
            by (nonlinear_arith)
            requires
                a0 as int * b2 as int == c as int * q2 as int + r2 as int,
                0 <= r2 < c,
                (r2 >= c - r2 && q3 == 2 * q2 + 1 && r3 == r2 - (c - r2)) || (r2 < c - r2 && q3
                    == 2 * q2 && r3 == r2 + r2),
        ;
        proof {
            // the doubled quotient stays at most 2 * b2, because a0 < c
            assert(q3 as int <= 2 * b2 as int) by (nonlinear_arith)
                requires
                    2 * (a0 as int * b2 as int) == q3 as int * c as int + r3 as int,
                    0 <= r3,
                    0 <= a0 < c,
                    0 <= q3,
                    0 <= b2,
            ;
        }
        // add the low bit: t * a0 more, still keeping the remainder below c
        let (q4, r4): (u128, u128) = if t == 1 {
            if r3 >= c - a0 {
                (q3 + 1, r3 - (c - a0))
            } else {
                (q3, r3 + a0)
            }
        } else {
            (q3, r3)
        };
        proof {
            assert(a0 as int * b as int == q4 as int * c as int + r4 as int && r4 < c)
                by (nonlinear_arith)
                requires
                    a0 as int * b as int == 2 * (a0 as int * b2 as int) + t as int * a0 as int,
                    2 * (a0 as int * b2 as int) == q3 as int * c as int + r3 as int,
                    r3 < c,
                    0 <= a0 < c,
                    t as int == 0 || t as int == 1,
                    (t as int == 1 && r3 >= c - a0 && q4 == q3 as int + 1 && r4 == r3 as int - (
                    c - a0)) || (t as int == 1 && r3 < c - a0 && q4 == q3 && r4 == r3 as int
                        + a0 as int) || (t as int == 0 && q4 == q3 && r4 == r3),
            ;
            lemma_fundamental_div_mod_converse_div(
                a0 as int * b as int,
                c as int,
                q4 as int,
                r4 as int,
            );
            lemma_fundamental_div_mod_converse_mod(
                a0 as int * b as int,
                c as int,
                q4 as int,
                r4 as int,
            );
            // the quotient is at most b, because a0 < c
            lemma_mul_inequality(a0 as int, c as int, b as int);
            lemma_div_is_ordered(a0 as int * b as int, c as int * b as int, c as int);
            vstd::arithmetic::div_mod::lemma_div_multiples_vanish(b as int, c as int);
        }
        (q4, r4)
    }
}

/// The quotient and remainder of `a * b` by `c`, or `None` when the
/// quotient does not fit the amount width.
fn mul_div(a: u128, b: u128, c: u128) -> (r: Option<(u128, u128)>)
    requires
        c > 0,
    ensures
        r matches Some((q, rem)) ==> q == a as int * b as int / (c as int) && rem == a as int
            * b as int % (c as int),
        r is Some <==> a as int * b as int / (c as int) <= u128::MAX,
{
    let qa: u128 = a / c;
    let a0: u128 = a % c;
    proof {
        lemma_fundamental_div_mod(a as int, c as int);
        lemma_fundamental_div_mod(a0 as int * b as int, c as int);
        // a * b == (qa * b + (a0 * b) / c) * c + (a0 * b) % c
        assert(a as int * b as int == (qa as int * b as int + a0 as int * b as int / (c as int))
            * c as int + a0 as int * b as int % (c as int)) by (nonlinear_arith)
            requires
                a as int == c as int * qa as int + a0 as int,
                a0 as int * b as int == c as int * (a0 as int * b as int / (c as int)) + a0 as int
                    * b as int % (c as int),
        ;
        lemma_fundamental_div_mod_converse_div(
            a as int * b as int,
            c as int,
            qa as int * b as int + a0 as int * b as int / (c as int),
            a0 as int * b as int % (c as int),
        );
        lemma_fundamental_div_mod_converse_mod(
            a as int * b as int,
            c as int,
            qa as int * b as int + a0 as int * b as int / (c as int),
            a0 as int * b as int % (c as int),
        );
    }
    let head: u128 = match qa.checked_mul(b) {
        Some(h) => h,
        None => {
            proof {
                assert(a as int * b as int / (c as int) >= qa as int * b as int) by {
                    assert(a0 as int * b as int / (c as int) >= 0);
                }
            }
            return None;
        },
    };
    let (qb, rem) = mul_div_small(a0, b, c);
    match head.checked_add(qb) {
        Some(q) => Some((q, rem)),
        None => None,
    }
}

/// Same-token repayment: the fee and the total, or the overflow condition
/// when the total leaves the amount width.
pub fn same_token_repayment(amount: u128) -> (r: Result<(u128, u128), SwapError>)
    ensures
        r matches Ok((fee, repay)) ==> fee == same_token_fee(amount as int) && repay
            == same_token_repay(amount as int),
        r is Ok <==> same_token_repay(amount as int) <= u128::MAX,
        r is Err ==> r == Err::<(u128, u128), SwapError>(SwapError::RepayOverflow),
{
    let k: u128 = amount / 997;
    let m: u128 = amount % 997;
    proof {
        lemma_fundamental_div_mod(amount as int, 997);
        // amount * 3 == (3k + 3m / 997) * 997 + 3m % 997
        lemma_fundamental_div_mod(3 * m as int, 997);
        assert(amount as int * 3 == (3 * k as int + 3 * m as int / 997) * 997 + 3 * m as int
            % 997) by (nonlinear_arith)
            requires
                amount as int == 997 * k as int + m as int,
                3 * m as int == 997 * (3 * m as int / 997) + 3 * m as int % 997,
        ;
        lemma_fundamental_div_mod_converse_div(
            amount as int * 3,
            997,
            3 * k as int + 3 * m as int / 997,
            3 * m as int % 997,
        );
        // bound the fee well inside the width
        lemma_div_is_ordered(amount as int, u128::MAX as int, 997);
    }
    let fee: u128 = 3 * k + (3 * m) / 997 + 1;
    match amount.checked_add(fee) {
        Some(repay) => Ok((fee, repay)),
        None => Err(SwapError::RepayOverflow),
    }
}

/// Cross-token repayment quote, or the zero-divisor / overflow condition.
///
/// `reserve_in` is the pool's balance of the token to be repaid,
/// `reserve_out` its balance of the token that was removed.
pub fn cross_token_repayment(reserve_in: u128, reserve_out: u128, amount_removed: u128) -> (r:
    Result<u128, SwapError>)
    ensures
        r matches Ok(v) ==> reserve_out > 0 && v == cross_token_repay(
            reserve_in as int,
            reserve_out as int,
            amount_removed as int,
        ),
        reserve_out == 0 ==> r == Err::<u128, SwapError>(SwapError::DivideByZero),
        reserve_out > 0 ==> ((r is Ok) <==> cross_token_repay(
            reserve_in as int,
            reserve_out as int,
            amount_removed as int,
        ) <= u128::MAX),
        reserve_out > 0 && r is Err ==> r == Err::<u128, SwapError>(SwapError::QuoteOverflow),
{
    if reserve_out == 0 {
        return Err(SwapError::DivideByZero);
    }
    let ghost numerator: int = 1000 * reserve_in as int * amount_removed as int;
    let ghost quotient: int = numerator / (997 * reserve_out as int);
    proof {
        // the two-stage division below computes the quotient
        assert(1000 * reserve_in as int * amount_removed as int == 1000 * (reserve_in as int
            * amount_removed as int)) by (nonlinear_arith);
        lemma_div_denominator(numerator, reserve_out as int, 997);
        assert(997 * reserve_out as int == reserve_out as int * 997) by (nonlinear_arith);
    }
    // stage one: w == numerator / reserve_out, held as w_hi * 2^64 + w_lo
    let (q1, rm1) = match mul_div(reserve_in, amount_removed, reserve_out) {
        Some(p) => p,
        None => {
            proof {
                lemma_quotient_dominates_product_quotient(
                    reserve_in as int,
                    reserve_out as int,
                    amount_removed as int,
                );
            }
            return Err(SwapError::QuoteOverflow);
        },
    };
    let (sq, _srm) = mul_div_small(rm1, 1000, reserve_out);
    proof {
        lemma_stage_one(
            reserve_in as int,
            reserve_out as int,
            amount_removed as int,
            q1 as int,
            rm1 as int,
            sq as int,
        );
    }
    let ghost w: int = 1000 * q1 as int + sq as int;
    // split w into base-2^64 halves
    let q1_hi: u128 = q1 / 0x1_0000_0000_0000_0000;
    let q1_lo: u128 = q1 % 0x1_0000_0000_0000_0000;
    let b_raw: u128 = 1000 * q1_lo + sq;
    let a_hi: u128 = 1000 * q1_hi + b_raw / 0x1_0000_0000_0000_0000;
    let b_lo: u128 = b_raw % 0x1_0000_0000_0000_0000;
    proof {
        lemma_fundamental_div_mod(q1 as int, 0x1_0000_0000_0000_0000);
        lemma_fundamental_div_mod(b_raw as int, 0x1_0000_0000_0000_0000);
        assert(w == a_hi as int * 0x1_0000_0000_0000_0000 + b_lo as int) by (nonlinear_arith)
            requires
                w == 1000 * q1 as int + sq as int,
                q1 as int == 0x1_0000_0000_0000_0000 * (q1 as int / 0x1_0000_0000_0000_0000)
                    + q1 as int % 0x1_0000_0000_0000_0000,
                q1_hi == q1 as int / 0x1_0000_0000_0000_0000,
                q1_lo == q1 as int % 0x1_0000_0000_0000_0000,
                b_raw == 1000 * q1_lo + sq,
                b_raw as int == 0x1_0000_0000_0000_0000 * (b_raw as int
                    / 0x1_0000_0000_0000_0000) + b_raw as int % 0x1_0000_0000_0000_0000,
                a_hi == 1000 * q1_hi as int + b_raw as int / 0x1_0000_0000_0000_0000,
                b_lo == b_raw as int % 0x1_0000_0000_0000_0000,
        ;
    }
    // stage two: divide w by 997 with two short divisions
    let qa: u128 = a_hi / 997;
    let ra: u128 = a_hi % 997;
    let c_mid: u128 = ra * 0x1_0000_0000_0000_0000 + b_lo;
    let qc: u128 = c_mid / 997;
    let rc: u128 = c_mid % 997;
    proof {
        lemma_fundamental_div_mod(a_hi as int, 997);
        lemma_fundamental_div_mod(c_mid as int, 997);
        assert(w == (qa as int * 0x1_0000_0000_0000_0000 + qc as int) * 997 + rc as int)
            by (nonlinear_arith)
            requires
                w == a_hi as int * 0x1_0000_0000_0000_0000 + b_lo as int,
                a_hi as int == 997 * qa as int + ra as int,
                c_mid as int == ra as int * 0x1_0000_0000_0000_0000 + b_lo as int,
                c_mid as int == 997 * qc as int + rc as int,
        ;
        lemma_fundamental_div_mod_converse_div(
            w,
            997,
            qa as int * 0x1_0000_0000_0000_0000 + qc as int,
            rc as int,
        );
        assert(quotient == qa as int * 0x1_0000_0000_0000_0000 + qc as int);
    }
    if qa >= 0x1_0000_0000_0000_0000 {
        proof {
            assert(quotient >= 0x1_0000_0000_0000_0000 * 0x1_0000_0000_0000_0000)
                by (nonlinear_arith)
                requires
                    quotient == qa as int * 0x1_0000_0000_0000_0000 + qc as int,
                    qa >= 0x1_0000_0000_0000_0000,
                    qc >= 0,
            ;
        }
        return Err(SwapError::QuoteOverflow);
    }
    let q: u128 = qa * 0x1_0000_0000_0000_0000 + qc;
    match q.checked_add(1) {
        Some(v) => Ok(v),
        None => Err(SwapError::QuoteOverflow),
    }
}

/// The full quote dominates the first-stage quotient: if `reserve_in *
/// amount_removed / reserve_out` already leaves the width, so does the
/// quote.
proof fn lemma_quotient_dominates_product_quotient(r_in: int, r_out: int, amt: int)
    requires
        0 <= r_in,
        0 < r_out,
        0 <= amt,
    ensures
        1000 * r_in * amt / (997 * r_out) >= r_in * amt / r_out,
{
    let p: int = r_in * amt;
    assert(0 <= p) by (nonlinear_arith)
        requires
            p == r_in * amt,
            0 <= r_in,
            0 <= amt,
    ;
    lemma_fundamental_div_mod(p, r_out);
    let q: int = p / r_out;
    let rm: int = p % r_out;
    assert(0 <= q) by (nonlinear_arith)
        requires
            p == r_out * q + rm,
            0 <= p,
            0 <= rm < r_out,
            0 < r_out,
    ;
    assert(1000 * r_in * amt == 1000 * p) by (nonlinear_arith)
        requires
            p == r_in * amt,
    ;
    assert(1000 * p >= q * (997 * r_out)) by (nonlinear_arith)
        requires
            p == r_out * q + rm,
            0 <= rm,
            0 <= q,
            0 < r_out,
    ;
    assert(997 * r_out > 0) by (nonlinear_arith)
        requires
            r_out > 0,
    ;
    lemma_div_is_ordered(q * (997 * r_out), 1000 * p, 997 * r_out);
    vstd::arithmetic::div_mod::lemma_div_multiples_vanish(q, 997 * r_out);
    assert(q * (997 * r_out) == (997 * r_out) * q) by (nonlinear_arith);
}

/// Stage one of the quote: `numerator / reserve_out == 1000 * q1 + sq`.
proof fn lemma_stage_one(r_in: int, r_out: int, amt: int, q1: int, rm1: int, sq: int)
    requires
        0 < r_out,
        q1 == r_in * amt / r_out,
        rm1 == r_in * amt % r_out,
        sq == rm1 * 1000 / r_out,
    ensures
        1000 * r_in * amt / r_out == 1000 * q1 + sq,
{
    lemma_fundamental_div_mod(r_in * amt, r_out);
    lemma_fundamental_div_mod(rm1 * 1000, r_out);
    let srm: int = rm1 * 1000 % r_out;
    assert(1000 * r_in * amt == (1000 * q1 + sq) * r_out + srm) by (nonlinear_arith)
        requires
            r_in * amt == r_out * q1 + rm1,
            rm1 * 1000 == r_out * sq + srm,
    ;
    lemma_fundamental_div_mod_converse_div(1000 * r_in * amt, r_out, 1000 * q1 + sq, srm);
}

/// The same-token repayment always exceeds the borrowed amount by the fee:
/// one rounding unit more than three parts in 997.
pub proof fn lemma_same_token_repay_exceeds_amount(amount: int)
    requires
        amount > 0,
    ensures
        same_token_repay(amount) > amount,
        same_token_repay(amount) == amount + amount * 3 / 997 + 1,
{
    assert(amount * 3 / 997 >= 0) by (nonlinear_arith)
        requires
            amount > 0,
    ;
}

/// The cross-token quote never shrinks when the amount removed grows.
pub proof fn lemma_cross_token_repay_monotonic_in_amount(r_in: int, r_out: int, a1: int, a2: int)
    requires
        0 <= r_in,
        0 <= a1 <= a2 < r_out,
    ensures
        cross_token_repay(r_in, r_out, a1) <= cross_token_repay(r_in, r_out, a2),
{
    assert(1000 * r_in * a1 <= 1000 * r_in * a2) by (nonlinear_arith)
        requires
            0 <= r_in,
            0 <= a1 <= a2,
    ;
    assert(997 * r_out > 0) by (nonlinear_arith)
        requires
            r_out > 0,
    ;
    lemma_div_is_ordered(1000 * r_in * a1, 1000 * r_in * a2, 997 * r_out);
}

/// The cross-token quote never shrinks when the repaid-token reserve grows.
pub proof fn lemma_cross_token_repay_monotonic_in_reserve_in(
    r_in1: int,
    r_in2: int,
    r_out: int,
    amt: int,
)
    requires
        0 <= r_in1 <= r_in2,
        0 <= amt < r_out,
    ensures
        cross_token_repay(r_in1, r_out, amt) <= cross_token_repay(r_in2, r_out, amt),
{
    assert(1000 * r_in1 * amt <= 1000 * r_in2 * amt) by (nonlinear_arith)
        requires
            0 <= r_in1 <= r_in2,
            0 <= amt,
    ;
    assert(997 * r_out > 0) by (nonlinear_arith)
        requires
            r_out > 0,
    ;
    lemma_div_is_ordered(1000 * r_in1 * amt, 1000 * r_in2 * amt, 997 * r_out);
}

/// The cross-token quote never grows when the removed-token reserve grows.
pub proof fn lemma_cross_token_repay_antitone_in_reserve_out(
    r_in: int,
    r_out1: int,
    r_out2: int,
    amt: int,
)
    requires
        0 <= r_in,
        0 <= amt < r_out1,
        r_out1 <= r_out2,
    ensures
        cross_token_repay(r_in, r_out1, amt) >= cross_token_repay(r_in, r_out2, amt),
{
    assert(0 <= 1000 * r_in * amt) by (nonlinear_arith)
        requires
            0 <= r_in,
            0 <= amt,
    ;
    assert(1 <= 997 * r_out1 <= 997 * r_out2) by (nonlinear_arith)
        requires
            0 < r_out1 <= r_out2,
    ;
    lemma_div_is_ordered_by_denominator(1000 * r_in * amt, 997 * r_out1, 997 * r_out2);
}

} // verus!
