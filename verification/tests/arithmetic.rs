use flashswapper::errors::SwapError;
use flashswapper::fees::{cross_token_repayment, same_token_repayment};

#[test]
fn same_token_fee_of_1000_is_4() {
    // fee = floor(1000 * 3 / 997) + 1 = 4, repay = 1004
    let (fee, repay) = same_token_repayment(1000).unwrap();
    assert_eq!(fee, 4);
    assert_eq!(repay, 1004);
}

#[test]
fn same_token_fee_of_zero_amount() {
    let (fee, repay) = same_token_repayment(0).unwrap();
    assert_eq!(fee, 1);
    assert_eq!(repay, 1);
}

#[test]
fn same_token_fee_exact_at_997() {
    // fee = floor(2991 / 997) + 1 = 3 + 1 = 4
    let (fee, repay) = same_token_repayment(997).unwrap();
    assert_eq!(fee, 4);
    assert_eq!(repay, 1001);
}

#[test]
fn same_token_repay_always_exceeds_amount() {
    for amount in [1u128, 2, 996, 997, 998, 1_000_000, u64::MAX as u128] {
        let (fee, repay) = same_token_repayment(amount).unwrap();
        assert!(repay > amount);
        assert_eq!(repay, amount + amount * 3 / 997 + 1);
        assert_eq!(fee, amount * 3 / 997 + 1);
    }
}

#[test]
fn same_token_overflow_at_width_edge() {
    assert_eq!(
        same_token_repayment(u128::MAX),
        Err(SwapError::RepayOverflow)
    );
}

#[test]
fn cross_token_quote_exact() {
    // floor(1000 * 50000 * 2000 / (997 * 100000)) + 1 = 1003 + 1 = 1004
    assert_eq!(cross_token_repayment(50_000, 100_000, 2_000), Ok(1004));
}

#[test]
fn cross_token_quote_small_values() {
    // floor(1000 * 7 * 3 / (997 * 10)) + 1 = floor(21000 / 9970) + 1 = 2 + 1
    assert_eq!(cross_token_repayment(7, 10, 3), Ok(3));
}

#[test]
fn cross_token_quote_zero_reserve_out() {
    assert_eq!(
        cross_token_repayment(1_000, 0, 10),
        Err(SwapError::DivideByZero)
    );
}

#[test]
fn cross_token_quote_overflow() {
    assert_eq!(
        cross_token_repayment(u128::MAX, 1, u128::MAX),
        Err(SwapError::QuoteOverflow)
    );
}

#[test]
fn cross_token_quote_wide_intermediates() {
    // 1000 * reserve_in * amount far exceeds the amount width, yet the
    // quotient still fits: floor(1000 * 2^100 * 2^20 / (997 * 2^100)) + 1
    let big: u128 = 1 << 100;
    let amount: u128 = 1 << 20;
    let expected: u128 = 1000 * (amount) / 997 + 1;
    assert_eq!(cross_token_repayment(big, big, amount), Ok(expected));
}

#[test]
fn cross_token_quote_monotone_in_amount() {
    let a = cross_token_repayment(50_000, 100_000, 1_999).unwrap();
    let b = cross_token_repayment(50_000, 100_000, 2_000).unwrap();
    assert!(a <= b);
}

#[test]
fn cross_token_quote_monotone_in_reserve_in() {
    let a = cross_token_repayment(49_999, 100_000, 2_000).unwrap();
    let b = cross_token_repayment(50_000, 100_000, 2_000).unwrap();
    assert!(a <= b);
}

#[test]
fn cross_token_quote_antitone_in_reserve_out() {
    let a = cross_token_repayment(50_000, 100_000, 2_000).unwrap();
    let b = cross_token_repayment(50_000, 100_001, 2_000).unwrap();
    assert!(a >= b);
}
