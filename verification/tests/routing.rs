use flashswapper::continuation::Strategy;
use flashswapper::swapper::FlashSwapper;
use flashswapper::token::TokenId;

fn id(c: u8) -> TokenId {
    TokenId::parse(vec![c; 64]).unwrap()
}

fn swapper() -> FlashSwapper {
    FlashSwapper::init(id(b'e'), id(b'd'), id(b'f'), id(b'c'), id(b'9'))
}

#[test]
fn init_sets_configuration_once() {
    let s = swapper();
    assert!(s.wcspr.same(&id(b'e')));
    assert!(s.cspr.is_zero_address());
    assert!(s.dai.same(&id(b'd')));
    assert!(s.uniswap_v2_factory.same(&id(b'f')));
    assert!(s.contract_hash.same(&id(b'c')));
    assert!(s.package_hash.same(&id(b'9')));
    assert!(s.permissioned_pair_address.is_none());
}

#[test]
fn same_token_pair_routes_to_simple_loan() {
    let s = swapper();
    let r = s.start_swap(&id(b'a'), &id(b'a'));
    assert_eq!(r.strategy, Strategy::SimpleLoan);
    assert!(!r.is_borrowing_native);
    assert!(!r.is_paying_native);
    assert!(r.token_borrow.same(&id(b'a')));
    assert!(r.token_pay.same(&id(b'a')));
}

#[test]
fn native_on_both_sides_routes_to_simple_loan() {
    let s = swapper();
    let zero = TokenId::zero_address();
    let r = s.start_swap(&zero, &zero);
    assert_eq!(r.strategy, Strategy::SimpleLoan);
    assert!(r.is_borrowing_native);
    assert!(r.is_paying_native);
    // both sides were substituted with the wrapped native asset
    assert!(r.token_borrow.same(&id(b'e')));
    assert!(r.token_pay.same(&id(b'e')));
}

#[test]
fn wrapped_native_on_one_side_routes_to_simple_swap() {
    let s = swapper();
    let r = s.start_swap(&id(b'e'), &id(b'a'));
    assert_eq!(r.strategy, Strategy::SimpleSwap);
    let r2 = s.start_swap(&id(b'a'), &id(b'e'));
    assert_eq!(r2.strategy, Strategy::SimpleSwap);
}

#[test]
fn native_sentinel_against_token_routes_to_simple_swap() {
    let s = swapper();
    let zero = TokenId::zero_address();
    let r = s.start_swap(&zero, &id(b'a'));
    assert_eq!(r.strategy, Strategy::SimpleSwap);
    assert!(r.is_borrowing_native);
    assert!(!r.is_paying_native);
    assert!(r.token_borrow.same(&id(b'e')));
    assert!(r.token_pay.same(&id(b'a')));
}

#[test]
fn unrelated_pair_routes_to_triangular() {
    let s = swapper();
    let r = s.start_swap(&id(b'a'), &id(b'b'));
    assert_eq!(r.strategy, Strategy::TriangularSwap);
    assert!(!r.is_borrowing_native);
    assert!(!r.is_paying_native);
}

#[test]
fn classification_is_exclusive_over_a_sample() {
    let s = swapper();
    let tokens = [
        TokenId::zero_address(),
        id(b'a'),
        id(b'b'),
        id(b'e'),
        id(b'd'),
    ];
    for borrow in &tokens {
        for pay in &tokens {
            let r = s.start_swap(borrow, pay);
            let same = r.token_borrow.same(&r.token_pay);
            let against_native =
                r.token_borrow.same(&s.wcspr) || r.token_pay.same(&s.wcspr);
            match r.strategy {
                Strategy::SimpleLoan => assert!(same),
                Strategy::SimpleSwap => assert!(!same && against_native),
                Strategy::TriangularSwap => assert!(!same && !against_native),
            }
        }
    }
}

#[test]
fn loan_query_picks_wrapped_native_companion() {
    let s = swapper();
    let (a, other) = s.simple_flash_loan_query(&id(b'a'));
    assert!(a.same(&id(b'a')));
    assert!(other.same(&id(b'e')));
}

#[test]
fn loan_query_falls_back_for_wrapped_native_itself() {
    let s = swapper();
    let (a, other) = s.simple_flash_loan_query(&id(b'e'));
    assert!(a.same(&id(b'e')));
    assert!(other.same(&id(b'd')));
}
