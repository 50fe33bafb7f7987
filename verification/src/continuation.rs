//! The continuation record.
//!
//! An initiator hands this record, encoded, to the pool's `swap`; the pool
//! hands it back verbatim through the callback, and the dispatcher decodes
//! it to learn which execute phase to run and with what state.
//!
//! Wire form: a flat comma-separated record
//! `tag,borrow_hash,amount,pay_hash,is_borrow_native,is_pay_native,payload,user_data`,
//! where the payload is empty for the same-token and direct-swap strategies
//! and `repay_pool_hash.native_amount` for the triangular one.  Numbers are
//! decimal, hashes raw lowercase hexadecimal, booleans `true`/`false`.

use vstd::prelude::*;

use crate::bytes::{append_bytes, bytes_eq, copy_bytes};
use crate::decimal::{
    all_dec_digits, dec_digits, dec_value, format_u128, lemma_dec_digits_roundtrip, parse_u128,
};
use crate::errors::SwapError;
use crate::split::{
    lemma_split_prefix, lemma_split_single, sep_free, spec_split, split_bytes,
};
use crate::token::{is_id_digits, is_lower_hex_digit, TokenId};

verus! {

/// The field separator of the wire form: an ASCII comma.
pub const COMMA: u8 = 44;

/// The separator inside the triangular payload: an ASCII full stop.
pub const DOT: u8 = 46;

/// Which borrow/repay strategy a continuation carries.
#[derive(Clone, Copy, Debug, PartialEq, Eq, Structural)]
pub enum Strategy {
    /// Borrow and repay the same token against one pool.
    SimpleLoan,
    /// Borrow one token, repay the other side of the same pool.
    SimpleSwap,
    /// Borrow native from the pay pool, swap it at the borrow pool.
    TriangularSwap,
}

/// The strategy tag's wire spelling.
pub open spec fn tag_bytes(s: Strategy) -> Seq<u8> {
    match s {
        Strategy::SimpleLoan => seq![115u8, 105, 109, 112, 108, 101, 95, 108, 111, 97, 110],
        Strategy::SimpleSwap => seq![115u8, 105, 109, 112, 108, 101, 95, 115, 119, 97, 112],
        Strategy::TriangularSwap => seq![
            116u8,
            114,
            105,
            97,
            110,
            103,
            117,
            108,
            97,
            114,
            95,
            115,
            119,
            97,
            112,
        ],
    }
}

/// A boolean's wire spelling.
pub open spec fn bool_bytes(b: bool) -> Seq<u8> {
    if b {
        seq![116u8, 114, 117, 101]
    } else {
        seq![102u8, 97, 108, 115, 101]
    }
}

/// The payload the triangular strategy carries across the callback.
#[derive(Debug, PartialEq, Eq)]
pub struct TrianglePayload {
    /// The borrow-token / native pool the execute phase swaps at.
    pub repay_pool: TokenId,
    /// How much native the execute phase owes that pool.
    pub amount_of_native: u128,
}

/// The state an initiator carries across the callback boundary.
#[derive(Debug, PartialEq, Eq)]
pub struct Continuation {
    /// The strategy tag, the dispatcher's branch discriminant.
    pub strategy: Strategy,
    /// The (normalized) borrowed token.
    pub token_borrow: TokenId,
    /// The requested amount.
    pub amount: u128,
    /// The (normalized) repayment token.
    pub token_pay: TokenId,
    /// Whether the caller asked to borrow the native asset.
    pub is_borrowing_native: bool,
    /// Whether the caller asked to repay in the native asset.
    pub is_paying_native: bool,
    /// The triangular payload; present exactly for that strategy.
    pub payload: Option<TrianglePayload>,
    /// Opaque bytes forwarded to the user hook.
    pub user_data: Vec<u8>,
}

/// The mathematical shape of a continuation.
pub ghost struct ContinuationView {
    pub strategy: Strategy,
    pub token_borrow: Seq<u8>,
    pub amount: u128,
    pub token_pay: Seq<u8>,
    pub is_borrowing_native: bool,
    pub is_paying_native: bool,
    pub payload: Option<(Seq<u8>, u128)>,
    pub user_data: Seq<u8>,
}

impl View for Continuation {
    type V = ContinuationView;

    open spec fn view(&self) -> ContinuationView {
        ContinuationView {
            strategy: self.strategy,
            token_borrow: self.token_borrow@,
            amount: self.amount,
            token_pay: self.token_pay@,
            is_borrowing_native: self.is_borrowing_native,
            is_paying_native: self.is_paying_native,
            payload: match self.payload {
                Option::None => Option::None,
                Option::Some(p) => Option::Some((p.repay_pool@, p.amount_of_native)),
            },
            user_data: self.user_data@,
        }
    }
}

/// A continuation that can go over the wire and come back unchanged: the
/// payload is present exactly for the triangular strategy, identifiers are
/// canonical, and the user data holds no field separator.
pub open spec fn view_wf(v: ContinuationView) -> bool {
    &&& is_id_digits(v.token_borrow)
    &&& is_id_digits(v.token_pay)
    &&& (v.strategy is TriangularSwap <==> v.payload is Some)
    &&& (v.payload matches Some(p) ==> is_id_digits(p.0))
    &&& sep_free(v.user_data, COMMA)
}

impl Continuation {
    /// See [`view_wf`].
    pub open spec fn wf(self) -> bool {
        view_wf(self@)
    }
}

/// The payload field's wire spelling.
pub open spec fn payload_bytes(p: Option<(Seq<u8>, u128)>) -> Seq<u8> {
    match p {
        Option::None => Seq::empty(),
        Option::Some(t) => t.0 + seq![DOT] + dec_digits(t.1 as nat),
    }
}

/// The whole record's wire spelling.
pub open spec fn spec_encode(v: ContinuationView) -> Seq<u8> {
    tag_bytes(v.strategy) + seq![COMMA] + v.token_borrow + seq![COMMA] + dec_digits(
        v.amount as nat,
    ) + seq![COMMA] + v.token_pay + seq![COMMA] + bool_bytes(v.is_borrowing_native) + seq![COMMA]
        + bool_bytes(v.is_paying_native) + seq![COMMA] + payload_bytes(v.payload) + seq![COMMA]
        + v.user_data
}

/// Which strategy a tag field names, if any.
pub open spec fn decode_strategy(t: Seq<u8>) -> Option<Strategy> {
    if t == tag_bytes(Strategy::SimpleLoan) {
        Option::Some(Strategy::SimpleLoan)
    } else if t == tag_bytes(Strategy::SimpleSwap) {
        Option::Some(Strategy::SimpleSwap)
    } else if t == tag_bytes(Strategy::TriangularSwap) {
        Option::Some(Strategy::TriangularSwap)
    } else {
        Option::None
    }
}

/// Which boolean a flag field spells, if any.
pub open spec fn decode_bool(t: Seq<u8>) -> Option<bool> {
    if t == bool_bytes(true) {
        Option::Some(true)
    } else if t == bool_bytes(false) {
        Option::Some(false)
    } else {
        Option::None
    }
}

/// Which amount a numeric field spells, if it fits the amount width.
pub open spec fn decode_amount(t: Seq<u8>) -> Option<u128> {
    if t.len() > 0 && all_dec_digits(t) && dec_value(t) <= u128::MAX {
        Option::Some(dec_value(t) as u128)
    } else {
        Option::None
    }
}

/// Which payload a payload field spells for the given strategy, if any:
/// empty except for the triangular strategy, whose payload is a pool hash
/// and a native amount separated by a full stop.
pub open spec fn decode_payload(strategy: Strategy, t: Seq<u8>) -> Option<
    Option<(Seq<u8>, u128)>,
> {
    if strategy is TriangularSwap {
        let parts = spec_split(t, DOT);
        if parts.len() == 2 && is_id_digits(parts[0]) && decode_amount(parts[1]) is Some {
            Option::Some(Option::Some((parts[0], decode_amount(parts[1]).unwrap())))
        } else {
            Option::None
        }
    } else {
        if t.len() == 0 {
            Option::Some(Option::None)
        } else {
            Option::None
        }
    }
}

/// What a wire string decodes to, if it is a well-formed record.
pub open spec fn spec_decode(s: Seq<u8>) -> Option<ContinuationView> {
    let parts = spec_split(s, COMMA);
    if parts.len() == 8 && decode_strategy(parts[0]) is Some && is_id_digits(parts[1])
        && decode_amount(parts[2]) is Some && is_id_digits(parts[3]) && decode_bool(
        parts[4],
    ) is Some && decode_bool(parts[5]) is Some && decode_payload(
        decode_strategy(parts[0]).unwrap(),
        parts[6],
    ) is Some {
        Option::Some(
            ContinuationView {
                strategy: decode_strategy(parts[0]).unwrap(),
                token_borrow: parts[1],
                amount: decode_amount(parts[2]).unwrap(),
                token_pay: parts[3],
                is_borrowing_native: decode_bool(parts[4]).unwrap(),
                is_paying_native: decode_bool(parts[5]).unwrap(),
                payload: decode_payload(decode_strategy(parts[0]).unwrap(), parts[6]).unwrap(),
                user_data: parts[7],
            },
        )
    } else {
        Option::None
    }
}

/// Every part of a split is itself separator-free.
pub proof fn lemma_split_parts_sep_free(s: Seq<u8>, sep: u8)
    ensures
        forall|j: int|
            0 <= j < spec_split(s, sep).len() ==> sep_free(#[trigger] spec_split(s, sep)[j], sep),
    decreases s.len(),
{
    if s.len() == 0 {
    } else if s[0] == sep {
        lemma_split_parts_sep_free(s.drop_first(), sep);
    } else {
        lemma_split_parts_sep_free(s.drop_first(), sep);
        crate::split::lemma_split_len(s.drop_first(), sep);
        let rest = spec_split(s.drop_first(), sep);
        let parts = spec_split(s, sep);
        assert forall|j: int| 0 <= j < parts.len() implies sep_free(#[trigger] parts[j], sep) by {
            if j == 0 {
                assert(parts[0] == seq![s[0]] + rest[0]);
                assert(sep_free(rest[0], sep));
                assert(forall|i: int|
                    0 <= i < parts[0].len() ==> parts[0][i] == (seq![s[0]] + rest[0])[i]);
            } else {
                assert(parts[j] == rest[j]);
            }
        }
    }
}

/// No strategy tag holds a field separator.
proof fn lemma_tag_sep_free(s: Strategy)
    ensures
        sep_free(tag_bytes(s), COMMA),
{
    assert(sep_free(tag_bytes(Strategy::SimpleLoan), COMMA));
    assert(sep_free(tag_bytes(Strategy::SimpleSwap), COMMA));
    assert(sep_free(tag_bytes(Strategy::TriangularSwap), COMMA));
}

/// No boolean spelling holds a field separator.
proof fn lemma_bool_sep_free(b: bool)
    ensures
        sep_free(bool_bytes(b), COMMA),
{
    assert(sep_free(bool_bytes(true), COMMA));
    assert(sep_free(bool_bytes(false), COMMA));
}

/// Identifier digits hold neither separator.
proof fn lemma_id_digits_sep_free(s: Seq<u8>)
    requires
        is_id_digits(s),
    ensures
        sep_free(s, COMMA),
        sep_free(s, DOT),
{
    assert(forall|i: int| 0 <= i < s.len() ==> is_lower_hex_digit(#[trigger] s[i]));
}

/// Decimal digits hold neither separator.
proof fn lemma_dec_digits_sep_free(s: Seq<u8>)
    requires
        all_dec_digits(s),
    ensures
        sep_free(s, COMMA),
        sep_free(s, DOT),
{
}

/// Splitting an encoded record on the field separator recovers exactly
/// its eight fields: no early field can hold the separator.
#[verifier::rlimit(50)]
#[verifier::spinoff_prover]
proof fn lemma_encode_splits(v: ContinuationView)
    requires
        view_wf(v),
    ensures
        spec_split(spec_encode(v), COMMA) == seq![
            tag_bytes(v.strategy),
            v.token_borrow,
            dec_digits(v.amount as nat),
            v.token_pay,
            bool_bytes(v.is_borrowing_native),
            bool_bytes(v.is_paying_native),
            payload_bytes(v.payload),
            v.user_data,
        ],
{
    let s0 = tag_bytes(v.strategy);
    let s1 = v.token_borrow;
    let s2 = dec_digits(v.amount as nat);
    let s3 = v.token_pay;
    let s4 = bool_bytes(v.is_borrowing_native);
    let s5 = bool_bytes(v.is_paying_native);
    let s6 = payload_bytes(v.payload);
    let s7 = v.user_data;
    lemma_tag_sep_free(v.strategy);
    lemma_dec_digits_roundtrip(v.amount as nat);
    lemma_id_digits_sep_free(s1);
    lemma_dec_digits_sep_free(s2);
    lemma_id_digits_sep_free(s3);
    lemma_bool_sep_free(v.is_borrowing_native);
    lemma_bool_sep_free(v.is_paying_native);
    // the payload field is free of the field separator
    match v.payload {
        Option::None => {},
        Option::Some(t) => {
            lemma_id_digits_sep_free(t.0);
            lemma_dec_digits_roundtrip(t.1 as nat);
            lemma_dec_digits_sep_free(dec_digits(t.1 as nat));
            assert(sep_free(s6, COMMA)) by {
                assert(forall|i: int|
                    0 <= i < s6.len() ==> s6[i] == #[trigger] (t.0 + seq![DOT] + dec_digits(
                        t.1 as nat,
                    ))[i]);
            }
        },
    }
    // peel the record apart at the seven separators
    let e = spec_encode(v);
    let r7 = s7;
    let r6 = s6 + seq![COMMA] + r7;
    let r5 = s5 + seq![COMMA] + r6;
    let r4 = s4 + seq![COMMA] + r5;
    let r3 = s3 + seq![COMMA] + r4;
    let r2 = s2 + seq![COMMA] + r3;
    let r1 = s1 + seq![COMMA] + r2;
    assert(e =~= s0 + seq![COMMA] + r1);
    lemma_split_prefix(s0, r1, COMMA);
    lemma_split_prefix(s1, r2, COMMA);
    lemma_split_prefix(s2, r3, COMMA);
    lemma_split_prefix(s3, r4, COMMA);
    lemma_split_prefix(s4, r5, COMMA);
    lemma_split_prefix(s5, r6, COMMA);
    lemma_split_prefix(s6, r7, COMMA);
    lemma_split_single(s7, COMMA);
    let parts = spec_split(e, COMMA);
    assert(parts =~= seq![s0, s1, s2, s3, s4, s5, s6, s7]);
}

/// Encoding never loses information: a well-formed continuation decodes
/// back from its own wire form.  This is the round-trip law of the codec,
/// for every strategy and payload combination.
#[verifier::rlimit(50)]
#[verifier::spinoff_prover]
pub proof fn lemma_encode_decode_roundtrip(v: ContinuationView)
    requires
        view_wf(v),
    ensures
        spec_decode(spec_encode(v)) == Some(v),
{
    let s0 = tag_bytes(v.strategy);
    let s2 = dec_digits(v.amount as nat);
    let s4 = bool_bytes(v.is_borrowing_native);
    let s5 = bool_bytes(v.is_paying_native);
    let s6 = payload_bytes(v.payload);
    let e = spec_encode(v);
    lemma_encode_splits(v);
    lemma_dec_digits_roundtrip(v.amount as nat);
    // every field decodes back to what was encoded
    assert(decode_strategy(s0) == Some(v.strategy)) by {
        assert(tag_bytes(Strategy::SimpleLoan)[7] == 108);
        assert(tag_bytes(Strategy::SimpleSwap)[7] == 115);
        assert(tag_bytes(Strategy::TriangularSwap).len() == 15);
        assert(tag_bytes(Strategy::SimpleLoan).len() == 11);
        assert(tag_bytes(Strategy::SimpleSwap).len() == 11);
    }
    assert(decode_amount(s2) == Some(v.amount));
    assert(decode_bool(s4) == Some(v.is_borrowing_native)) by {
        assert(bool_bytes(true).len() == 4);
        assert(bool_bytes(false).len() == 5);
    }
    assert(decode_bool(s5) == Some(v.is_paying_native)) by {
        assert(bool_bytes(true).len() == 4);
        assert(bool_bytes(false).len() == 5);
    }
    assert(decode_payload(v.strategy, s6) == Some(v.payload)) by {
        match v.payload {
            Option::None => {
                assert(!(v.strategy is TriangularSwap));
                assert(s6.len() == 0);
            },
            Option::Some(t) => {
                assert(v.strategy is TriangularSwap);
                let d = dec_digits(t.1 as nat);
                lemma_id_digits_sep_free(t.0);
                lemma_dec_digits_roundtrip(t.1 as nat);
                lemma_dec_digits_sep_free(d);
                assert(s6 =~= t.0 + seq![DOT] + d);
                lemma_split_prefix(t.0, d, DOT);
                lemma_split_single(d, DOT);
                let dparts = spec_split(s6, DOT);
                assert(dparts =~= seq![t.0, d]);
                assert(decode_amount(d) == Some(t.1));
            },
        }
    }
    assert(spec_decode(e) is Some);
    assert(spec_decode(e).unwrap() == v);
}

/// The strategy tag's wire spelling, as a fresh vector.
fn tag_vec(s: Strategy) -> (r: Vec<u8>)
    ensures
        r@ == tag_bytes(s),
{
    let mut out: Vec<u8> = Vec::new();
    match s {
        Strategy::SimpleLoan => {
            out.push(115);
            out.push(105);
            out.push(109);
            out.push(112);
            out.push(108);
            out.push(101);
            out.push(95);
            out.push(108);
            out.push(111);
            out.push(97);
            out.push(110);
        },
        Strategy::SimpleSwap => {
            out.push(115);
            out.push(105);
            out.push(109);
            out.push(112);
            out.push(108);
            out.push(101);
            out.push(95);
            out.push(115);
            out.push(119);
            out.push(97);
            out.push(112);
        },
        Strategy::TriangularSwap => {
            out.push(116);
            out.push(114);
            out.push(105);
            out.push(97);
            out.push(110);
            out.push(103);
            out.push(117);
            out.push(108);
            out.push(97);
            out.push(114);
            out.push(95);
            out.push(115);
            out.push(119);
            out.push(97);
            out.push(112);
        },
    }
    proof {
        assert(out@ =~= tag_bytes(s));
    }
    out
}

/// A boolean's wire spelling, as a fresh vector.
fn bool_vec(b: bool) -> (r: Vec<u8>)
    ensures
        r@ == bool_bytes(b),
{
    let mut out: Vec<u8> = Vec::new();
    if b {
        out.push(116);
        out.push(114);
        out.push(117);
        out.push(101);
    } else {
        out.push(102);
        out.push(97);
        out.push(108);
        out.push(115);
        out.push(101);
    }
    proof {
        assert(out@ =~= bool_bytes(b));
    }
    out
}

impl Continuation {
    /// Encodes the record in its wire form.
    pub fn encode(&self) -> (r: Vec<u8>)
        ensures
            r@ == spec_encode(self@),
    {
        let mut out: Vec<u8> = tag_vec(self.strategy);
        out.push(COMMA);
        append_bytes(&mut out, self.token_borrow.digits());
        out.push(COMMA);
        let amount_digits: Vec<u8> = format_u128(self.amount);
        append_bytes(&mut out, &amount_digits);
        out.push(COMMA);
        append_bytes(&mut out, self.token_pay.digits());
        out.push(COMMA);
        let ib: Vec<u8> = bool_vec(self.is_borrowing_native);
        append_bytes(&mut out, &ib);
        out.push(COMMA);
        let ip: Vec<u8> = bool_vec(self.is_paying_native);
        append_bytes(&mut out, &ip);
        out.push(COMMA);
        match &self.payload {
            Option::None => {},
            Option::Some(p) => {
                append_bytes(&mut out, p.repay_pool.digits());
                out.push(DOT);
                let native_digits: Vec<u8> = format_u128(p.amount_of_native);
                append_bytes(&mut out, &native_digits);
            },
        }
        out.push(COMMA);
        append_bytes(&mut out, &self.user_data);
        proof {
            assert(out@ =~= spec_encode(self@));
        }
        out
    }

    /// Decodes a wire string; accepts exactly the well-formed records.
    pub fn decode(s: &Vec<u8>) -> (r: Result<Continuation, SwapError>)
        ensures
            r matches Ok(c) ==> spec_decode(s@) == Some(c@) && c.wf(),
            r is Ok <==> spec_decode(s@) is Some,
            r is Err ==> r == Err::<Continuation, SwapError>(SwapError::MalformedContinuation),
    {
        let parts: Vec<Vec<u8>> = split_bytes(s, COMMA);
        let ghost sparts = spec_split(s@, COMMA);
        proof {
            assert(forall|k: int|
                0 <= k < parts@.len() ==> #[trigger] parts@[k]@ == parts@.map_values(
                    |p: Vec<u8>| p@,
                )[k]);
        }
        if parts.len() != 8 {
            return Err(SwapError::MalformedContinuation);
        }
        let tag_sl: Vec<u8> = tag_vec(Strategy::SimpleLoan);
        let tag_ss: Vec<u8> = tag_vec(Strategy::SimpleSwap);
        let tag_ts: Vec<u8> = tag_vec(Strategy::TriangularSwap);
        let strategy: Strategy = if bytes_eq(&parts[0], &tag_sl) {
            Strategy::SimpleLoan
        } else if bytes_eq(&parts[0], &tag_ss) {
            Strategy::SimpleSwap
        } else if bytes_eq(&parts[0], &tag_ts) {
            Strategy::TriangularSwap
        } else {
            return Err(SwapError::MalformedContinuation);
        };
        assert(decode_strategy(sparts[0]) == Some(strategy));
        let token_borrow: TokenId = match TokenId::parse(copy_bytes(&parts[1])) {
            Ok(t) => t,
            Err(_) => {
                return Err(SwapError::MalformedContinuation);
            },
        };
        let amount: u128 = match parse_u128(&parts[2]) {
            Ok(v) => v,
            Err(_) => {
                return Err(SwapError::MalformedContinuation);
            },
        };
        let token_pay: TokenId = match TokenId::parse(copy_bytes(&parts[3])) {
            Ok(t) => t,
            Err(_) => {
                return Err(SwapError::MalformedContinuation);
            },
        };
        let true_v: Vec<u8> = bool_vec(true);
        let false_v: Vec<u8> = bool_vec(false);
        let is_borrowing_native: bool = if bytes_eq(&parts[4], &true_v) {
            true
        } else if bytes_eq(&parts[4], &false_v) {
            false
        } else {
            return Err(SwapError::MalformedContinuation);
        };
        let is_paying_native: bool = if bytes_eq(&parts[5], &true_v) {
            true
        } else if bytes_eq(&parts[5], &false_v) {
            false
        } else {
            return Err(SwapError::MalformedContinuation);
        };
        let payload: Option<TrianglePayload> = match strategy {
            Strategy::TriangularSwap => {
                let dparts: Vec<Vec<u8>> = split_bytes(&parts[6], DOT);
                proof {
                    assert(forall|k: int|
                        0 <= k < dparts@.len() ==> #[trigger] dparts@[k]@ == dparts@.map_values(
                            |p: Vec<u8>| p@,
                        )[k]);
                }
                if dparts.len() != 2 {
                    return Err(SwapError::MalformedContinuation);
                }
                let repay_pool: TokenId = match TokenId::parse(copy_bytes(&dparts[0])) {
                    Ok(t) => t,
                    Err(_) => {
                        return Err(SwapError::MalformedContinuation);
                    },
                };
                let amount_of_native: u128 = match parse_u128(&dparts[1]) {
                    Ok(v) => v,
                    Err(_) => {
                        return Err(SwapError::MalformedContinuation);
                    },
                };
                Some(TrianglePayload { repay_pool, amount_of_native })
            },
            _ => {
                if parts[6].len() != 0 {
                    return Err(SwapError::MalformedContinuation);
                }
                None
            },
        };
        let user_data: Vec<u8> = copy_bytes(&parts[7]);
        proof {
            lemma_split_parts_sep_free(s@, COMMA);
        }
        let c = Continuation {
            strategy,
            token_borrow,
            amount,
            token_pay,
            is_borrowing_native,
            is_paying_native,
            payload,
            user_data,
        };
        proof {
            assert(spec_decode(s@) is Some);
            assert(c@ == spec_decode(s@).unwrap());
        }
        Ok(c)
    }
}

} // verus!
