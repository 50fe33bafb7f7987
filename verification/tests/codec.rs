use flashswapper::continuation::{Continuation, Strategy, TrianglePayload};
use flashswapper::decimal::{format_u128, parse_u128};
use flashswapper::errors::SwapError;
use flashswapper::token::TokenId;

fn id(c: u8) -> TokenId {
    TokenId::parse(vec![c; 64]).unwrap()
}

fn loan_continuation() -> Continuation {
    Continuation {
        strategy: Strategy::SimpleLoan,
        token_borrow: id(b'a'),
        amount: 1000,
        token_pay: id(b'a'),
        is_borrowing_native: false,
        is_paying_native: true,
        payload: None,
        user_data: b"hello world".to_vec(),
    }
}

#[test]
fn wire_form_is_the_flat_record() {
    let c = loan_continuation();
    let wire = c.encode();
    let mut expected: Vec<u8> = Vec::new();
    expected.extend_from_slice(b"simple_loan,");
    expected.extend_from_slice(&[b'a'; 64]);
    expected.extend_from_slice(b",1000,");
    expected.extend_from_slice(&[b'a'; 64]);
    expected.extend_from_slice(b",false,true,,hello world");
    assert_eq!(wire, expected);
}

#[test]
fn roundtrip_simple_loan() {
    let c = loan_continuation();
    let back = Continuation::decode(&c.encode()).unwrap();
    assert_eq!(back.strategy, Strategy::SimpleLoan);
    assert!(back.token_borrow.same(&c.token_borrow));
    assert_eq!(back.amount, 1000);
    assert!(back.token_pay.same(&c.token_pay));
    assert!(!back.is_borrowing_native);
    assert!(back.is_paying_native);
    assert!(back.payload.is_none());
    assert_eq!(back.user_data, c.user_data);
}

#[test]
fn roundtrip_simple_swap_empty_user_data() {
    let c = Continuation {
        strategy: Strategy::SimpleSwap,
        token_borrow: id(b'1'),
        amount: 0,
        token_pay: id(b'f'),
        is_borrowing_native: true,
        is_paying_native: false,
        payload: None,
        user_data: Vec::new(),
    };
    let back = Continuation::decode(&c.encode()).unwrap();
    assert_eq!(back.strategy, Strategy::SimpleSwap);
    assert!(back.token_borrow.same(&c.token_borrow));
    assert_eq!(back.amount, 0);
    assert!(back.token_pay.same(&c.token_pay));
    assert!(back.is_borrowing_native);
    assert!(!back.is_paying_native);
    assert!(back.payload.is_none());
    assert!(back.user_data.is_empty());
}

#[test]
fn roundtrip_triangular_dotted_payload() {
    let c = Continuation {
        strategy: Strategy::TriangularSwap,
        token_borrow: id(b'b'),
        amount: u128::MAX,
        token_pay: id(b'c'),
        is_borrowing_native: false,
        is_paying_native: false,
        payload: Some(TrianglePayload {
            repay_pool: id(b'd'),
            amount_of_native: 123_456_789,
        }),
        user_data: b"x".to_vec(),
    };
    let wire = c.encode();
    let back = Continuation::decode(&wire).unwrap();
    assert_eq!(back.strategy, Strategy::TriangularSwap);
    assert_eq!(back.amount, u128::MAX);
    let p = back.payload.unwrap();
    assert!(p.repay_pool.same(&id(b'd')));
    assert_eq!(p.amount_of_native, 123_456_789);
}

#[test]
fn triangular_wire_payload_is_dotted() {
    let c = Continuation {
        strategy: Strategy::TriangularSwap,
        token_borrow: id(b'b'),
        amount: 5,
        token_pay: id(b'c'),
        is_borrowing_native: false,
        is_paying_native: false,
        payload: Some(TrianglePayload {
            repay_pool: id(b'd'),
            amount_of_native: 42,
        }),
        user_data: Vec::new(),
    };
    let wire = c.encode();
    let mut expected: Vec<u8> = Vec::new();
    expected.extend_from_slice(b"triangular_swap,");
    expected.extend_from_slice(&[b'b'; 64]);
    expected.extend_from_slice(b",5,");
    expected.extend_from_slice(&[b'c'; 64]);
    expected.extend_from_slice(b",false,false,");
    expected.extend_from_slice(&[b'd'; 64]);
    expected.extend_from_slice(b".42,");
    assert_eq!(wire, expected);
}

#[test]
fn decode_rejects_wrong_field_count() {
    assert_eq!(
        Continuation::decode(&b"simple_loan,abc".to_vec()),
        Err(SwapError::MalformedContinuation)
    );
}

#[test]
fn decode_rejects_unknown_tag() {
    let c = loan_continuation();
    let mut wire = c.encode();
    wire[0] = b'x';
    assert_eq!(
        Continuation::decode(&wire),
        Err(SwapError::MalformedContinuation)
    );
}

#[test]
fn decode_rejects_bad_hash_digit() {
    let c = loan_continuation();
    let mut wire = c.encode();
    // first hash byte, just after "simple_loan,"
    wire[12] = b'G';
    assert_eq!(
        Continuation::decode(&wire),
        Err(SwapError::MalformedContinuation)
    );
}

#[test]
fn decode_rejects_uppercase_hash() {
    let c = loan_continuation();
    let mut wire = c.encode();
    wire[12] = b'A';
    assert_eq!(
        Continuation::decode(&wire),
        Err(SwapError::MalformedContinuation)
    );
}

#[test]
fn decode_rejects_bad_amount() {
    let mut wire: Vec<u8> = Vec::new();
    wire.extend_from_slice(b"simple_loan,");
    wire.extend_from_slice(&[b'a'; 64]);
    wire.extend_from_slice(b",12x4,");
    wire.extend_from_slice(&[b'a'; 64]);
    wire.extend_from_slice(b",false,true,,");
    assert_eq!(
        Continuation::decode(&wire),
        Err(SwapError::MalformedContinuation)
    );
}

#[test]
fn decode_rejects_amount_beyond_width() {
    let mut wire: Vec<u8> = Vec::new();
    wire.extend_from_slice(b"simple_loan,");
    wire.extend_from_slice(&[b'a'; 64]);
    // one more than the largest representable amount
    wire.extend_from_slice(b",340282366920938463463374607431768211456,");
    wire.extend_from_slice(&[b'a'; 64]);
    wire.extend_from_slice(b",false,true,,");
    assert_eq!(
        Continuation::decode(&wire),
        Err(SwapError::MalformedContinuation)
    );
}

#[test]
fn decode_accepts_amount_at_width() {
    let mut wire: Vec<u8> = Vec::new();
    wire.extend_from_slice(b"simple_loan,");
    wire.extend_from_slice(&[b'a'; 64]);
    wire.extend_from_slice(b",340282366920938463463374607431768211455,");
    wire.extend_from_slice(&[b'a'; 64]);
    wire.extend_from_slice(b",false,true,,");
    let back = Continuation::decode(&wire).unwrap();
    assert_eq!(back.amount, u128::MAX);
}

#[test]
fn decode_rejects_payload_on_simple_loan() {
    let mut wire: Vec<u8> = Vec::new();
    wire.extend_from_slice(b"simple_loan,");
    wire.extend_from_slice(&[b'a'; 64]);
    wire.extend_from_slice(b",5,");
    wire.extend_from_slice(&[b'a'; 64]);
    wire.extend_from_slice(b",false,true,");
    wire.extend_from_slice(&[b'd'; 64]);
    wire.extend_from_slice(b".42,");
    assert_eq!(
        Continuation::decode(&wire),
        Err(SwapError::MalformedContinuation)
    );
}

#[test]
fn decode_rejects_triangular_without_dot() {
    let mut wire: Vec<u8> = Vec::new();
    wire.extend_from_slice(b"triangular_swap,");
    wire.extend_from_slice(&[b'b'; 64]);
    wire.extend_from_slice(b",5,");
    wire.extend_from_slice(&[b'c'; 64]);
    wire.extend_from_slice(b",false,false,,");
    assert_eq!(
        Continuation::decode(&wire),
        Err(SwapError::MalformedContinuation)
    );
}

#[test]
fn decode_rejects_bad_bool() {
    let mut wire: Vec<u8> = Vec::new();
    wire.extend_from_slice(b"simple_loan,");
    wire.extend_from_slice(&[b'a'; 64]);
    wire.extend_from_slice(b",5,");
    wire.extend_from_slice(&[b'a'; 64]);
    wire.extend_from_slice(b",maybe,true,,");
    assert_eq!(
        Continuation::decode(&wire),
        Err(SwapError::MalformedContinuation)
    );
}

#[test]
fn token_parse_accepts_only_canonical_hex() {
    assert!(TokenId::parse(vec![b'0'; 64]).is_ok());
    assert!(TokenId::parse(vec![b'f'; 64]).is_ok());
    assert_eq!(
        TokenId::parse(vec![b'f'; 63]),
        Err(SwapError::MalformedContinuation)
    );
    assert_eq!(
        TokenId::parse(vec![b'F'; 64]),
        Err(SwapError::MalformedContinuation)
    );
    assert_eq!(
        TokenId::parse(vec![b'g'; 64]),
        Err(SwapError::MalformedContinuation)
    );
}

#[test]
fn zero_address_is_all_zero_digits() {
    let z = TokenId::zero_address();
    assert!(z.is_zero_address());
    assert_eq!(z.digits(), &vec![b'0'; 64]);
    assert!(!id(b'a').is_zero_address());
}

#[test]
fn decimal_format_canonical() {
    assert_eq!(format_u128(0), b"0".to_vec());
    assert_eq!(format_u128(7), b"7".to_vec());
    assert_eq!(format_u128(1004), b"1004".to_vec());
    assert_eq!(
        format_u128(u128::MAX),
        b"340282366920938463463374607431768211455".to_vec()
    );
}

#[test]
fn decimal_parse_inverts_format() {
    for n in [0u128, 1, 9, 10, 997, 1000, u64::MAX as u128, u128::MAX] {
        assert_eq!(parse_u128(&format_u128(n)), Ok(n));
    }
}

#[test]
fn decimal_parse_accepts_leading_zeros() {
    assert_eq!(parse_u128(&b"00123".to_vec()), Ok(123));
}

#[test]
fn decimal_parse_rejects_junk() {
    assert_eq!(
        parse_u128(&Vec::new()),
        Err(SwapError::MalformedContinuation)
    );
    assert_eq!(
        parse_u128(&b"12a".to_vec()),
        Err(SwapError::MalformedContinuation)
    );
    assert_eq!(
        parse_u128(&b"-1".to_vec()),
        Err(SwapError::MalformedContinuation)
    );
}
