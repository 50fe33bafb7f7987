use flashswapper::continuation::{Continuation, Strategy};
use flashswapper::errors::SwapError;
use flashswapper::swapper::FlashSwapper;
use flashswapper::token::TokenId;

fn id(c: u8) -> TokenId {
    TokenId::parse(vec![c; 64]).unwrap()
}

fn swapper() -> FlashSwapper {
    FlashSwapper::init(id(b'e'), id(b'd'), id(b'f'), id(b'c'), id(b'9'))
}

fn wire() -> Vec<u8> {
    Continuation {
        strategy: Strategy::SimpleLoan,
        token_borrow: id(b'a'),
        amount: 1000,
        token_pay: id(b'a'),
        is_borrowing_native: false,
        is_paying_native: false,
        payload: None,
        user_data: Vec::new(),
    }
    .encode()
}

#[test]
fn callback_rejects_caller_that_is_not_the_session_pair() {
    let mut s = swapper();
    // a loan is in flight against pool 7
    let _ = s.simple_flash_loan(
        &id(b'a'),
        1000,
        false,
        false,
        &Vec::new(),
        &id(b'7'),
        &id(b'a'),
        &id(b'e'),
    );
    // a perfectly well-formed continuation does not help the wrong caller
    assert!(matches!(
        s.uniswap_v2_call(&id(b'8'), &id(b'9'), &wire()),
        Err(SwapError::PermissionedPairAccess)
    ));
}

#[test]
fn callback_rejects_when_no_session_is_in_flight() {
    let s = swapper();
    assert!(matches!(
        s.uniswap_v2_call(&id(b'7'), &id(b'9'), &wire()),
        Err(SwapError::PermissionedPairAccess)
    ));
}

#[test]
fn callback_rejects_foreign_initiator() {
    let mut s = swapper();
    let _ = s.simple_flash_loan(
        &id(b'a'),
        1000,
        false,
        false,
        &Vec::new(),
        &id(b'7'),
        &id(b'a'),
        &id(b'e'),
    );
    // right caller, but the pool says someone else started the swap
    assert!(matches!(
        s.uniswap_v2_call(&id(b'7'), &id(b'b'), &wire()),
        Err(SwapError::InvalidContractAddress)
    ));
}

#[test]
fn callback_rejects_malformed_continuation() {
    let mut s = swapper();
    let _ = s.simple_flash_loan(
        &id(b'a'),
        1000,
        false,
        false,
        &Vec::new(),
        &id(b'7'),
        &id(b'a'),
        &id(b'e'),
    );
    assert!(matches!(
        s.uniswap_v2_call(&id(b'7'), &id(b'9'), &b"garbage".to_vec()),
        Err(SwapError::MalformedContinuation)
    ));
}

#[test]
fn callback_decodes_for_the_session_pair() {
    let mut s = swapper();
    let call = s
        .simple_flash_loan(
            &id(b'a'),
            1000,
            false,
            false,
            &b"payload for the hook".to_vec(),
            &id(b'7'),
            &id(b'a'),
            &id(b'e'),
        )
        .unwrap();
    let c = s.uniswap_v2_call(&id(b'7'), &id(b'9'), &call.data).unwrap();
    assert_eq!(c.strategy, Strategy::SimpleLoan);
    assert!(c.token_borrow.same(&id(b'a')));
    assert_eq!(c.amount, 1000);
    assert_eq!(c.user_data, b"payload for the hook".to_vec());
}

#[test]
fn session_pair_follows_the_latest_initiation() {
    let mut s = swapper();
    let _ = s.simple_flash_loan(
        &id(b'a'),
        1,
        false,
        false,
        &Vec::new(),
        &id(b'7'),
        &id(b'a'),
        &id(b'e'),
    );
    let _ = s.simple_flash_swap(
        &id(b'a'),
        1,
        &id(b'e'),
        false,
        false,
        &Vec::new(),
        &id(b'8'),
        &id(b'a'),
        &id(b'e'),
    );
    // the earlier pool may no longer call back
    assert!(matches!(
        s.uniswap_v2_call(&id(b'7'), &id(b'9'), &wire()),
        Err(SwapError::PermissionedPairAccess)
    ));
    assert!(s.uniswap_v2_call(&id(b'8'), &id(b'9'), &wire()).is_ok());
}
