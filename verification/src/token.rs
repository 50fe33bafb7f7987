//! Token, pool and contract identifiers.
//!
//! The host addresses contracts by a 32-byte hash.  The orchestration logic
//! only ever compares identifiers and carries them through the continuation
//! record, whose wire form holds each hash as raw hexadecimal without its
//! addressing prefix.  The library therefore holds every identifier in that
//! canonical form: exactly 64 lowercase hexadecimal digits, as ASCII bytes.

use vstd::prelude::*;

use crate::bytes::{bytes_eq, copy_bytes};
use crate::errors::SwapError;

verus! {

/// The number of hexadecimal digits in an identifier.
pub const ID_DIGITS: usize = 64;

/// True for the ASCII bytes `0`..`9` and `a`..`f`.
pub open spec fn is_lower_hex_digit(b: u8) -> bool {
    (48 <= b && b <= 57) || (97 <= b && b <= 102)
}

/// True for a sequence of exactly 64 lowercase hexadecimal digit bytes.
pub open spec fn is_id_digits(s: Seq<u8>) -> bool {
    s.len() == ID_DIGITS && forall|i: int| 0 <= i < s.len() ==> is_lower_hex_digit(#[trigger] s[i])
}

/// The digits of the zero address: 64 ASCII `0` bytes.
pub open spec fn zero_address_digits() -> Seq<u8> {
    Seq::new(ID_DIGITS as nat, |i: int| 48u8)
}

/// A token, pool or contract identifier in canonical hexadecimal form.
#[derive(Debug, PartialEq, Eq)]
pub struct TokenId {
    digits: Vec<u8>,
}

impl View for TokenId {
    type V = Seq<u8>;

    closed spec fn view(&self) -> Seq<u8> {
        self.digits@
    }
}

impl TokenId {
    /// Always holds: an identifier is 64 lowercase hexadecimal digits.
    #[verifier::type_invariant]
    pub open spec fn wf(self) -> bool {
        is_id_digits(self@)
    }

    /// Accepts exactly a 64-byte lowercase hexadecimal spelling.
    pub fn parse(digits: Vec<u8>) -> (r: Result<TokenId, SwapError>)
        ensures
            r is Ok <==> is_id_digits(digits@),
            r matches Ok(t) ==> t@ == digits@,
            r is Err ==> r == Err::<TokenId, SwapError>(SwapError::MalformedContinuation),
    {
        if digits.len() != ID_DIGITS {
            return Err(SwapError::MalformedContinuation);
        }
        let n: usize = digits.len();
        let mut i: usize = 0;
        while i < n
            invariant
                n == digits@.len(),
                i <= n,
                forall|j: int| 0 <= j < i ==> is_lower_hex_digit(#[trigger] digits@[j]),
            decreases n - i,
        {
            let b: u8 = digits[i];
            if !((48 <= b && b <= 57) || (97 <= b && b <= 102)) {
                return Err(SwapError::MalformedContinuation);
            }
            i = i + 1;
        }
        Ok(TokenId { digits })
    }

    /// The zero address: the factory's sentinel for "no such pool", and the
    /// native-asset sentinel on the router's inputs.
    pub fn zero_address() -> (r: TokenId)
        ensures
            r@ == zero_address_digits(),
    {
        let mut digits: Vec<u8> = Vec::new();
        let mut i: usize = 0;
        while i < ID_DIGITS
            invariant
                i <= ID_DIGITS,
                digits@.len() == i,
                forall|j: int| 0 <= j < i ==> digits@[j] == 48u8,
            decreases ID_DIGITS - i,
        {
            digits.push(48);
            i = i + 1;
        }
        assert(digits@ =~= zero_address_digits());
        TokenId { digits }
    }

    /// True exactly when the two identifiers are the same address.
    pub fn same(&self, other: &TokenId) -> (r: bool)
        ensures
            r == (self@ == other@),
    {
        bytes_eq(&self.digits, &other.digits)
    }

    /// True exactly when this identifier is the zero address.
    pub fn is_zero_address(&self) -> (r: bool)
        ensures
            r == (self@ == zero_address_digits()),
    {
        let zero: TokenId = TokenId::zero_address();
        self.same(&zero)
    }

    /// A fresh copy of the identifier.
    pub fn duplicate(&self) -> (r: TokenId)
        ensures
            r@ == self@,
    {
        proof {
            use_type_invariant(&*self);
        }
        TokenId { digits: copy_bytes(&self.digits) }
    }

    /// The identifier's digits, as bytes.
    pub fn digits(&self) -> (r: &Vec<u8>)
        ensures
            r@ == self@,
    {
        &self.digits
    }
}

} // verus!
