//! Base-10 textual encoding of amounts, as ASCII bytes.
//!
//! The continuation record carries every numeric field in this form.

use vstd::prelude::*;

use vstd::arithmetic::div_mod::lemma_fundamental_div_mod;

use crate::errors::SwapError;

verus! {

/// True for the ASCII bytes `0`..`9`.
pub open spec fn is_dec_digit(b: u8) -> bool {
    48 <= b && b <= 57
}

/// True when every byte of `s` is a decimal digit.
pub open spec fn all_dec_digits(s: Seq<u8>) -> bool {
    forall|i: int| 0 <= i < s.len() ==> is_dec_digit(#[trigger] s[i])
}

/// The canonical decimal spelling of `n`: no sign, no leading zero except
/// for zero itself.
pub open spec fn dec_digits(n: nat) -> Seq<u8>
    decreases n,
{
    if n < 10 {
        seq![(48 + n) as u8]
    } else {
        dec_digits(n / 10) + seq![(48 + n % 10) as u8]
    }
}

/// The number a digit string spells.
pub open spec fn dec_value(s: Seq<u8>) -> nat
    recommends
        all_dec_digits(s),
    decreases s.len(),
{
    if s.len() == 0 {
        0
    } else {
        dec_value(s.drop_last()) * 10 + (if s.last() >= 48 {
            (s.last() - 48) as nat
        } else {
            0
        })
    }
}

/// The canonical spelling is digits only, never empty, and spells its
/// number back.
pub proof fn lemma_dec_digits_roundtrip(n: nat)
    ensures
        dec_digits(n).len() > 0,
        all_dec_digits(dec_digits(n)),
        dec_value(dec_digits(n)) == n,
    decreases n,
{
    if n < 10 {
        let s = dec_digits(n);
        assert(s =~= seq![(48 + n) as u8]);
        assert(s.drop_last() =~= Seq::<u8>::empty());
        assert(dec_value(s) == dec_value(s.drop_last()) * 10 + (s.last() - 48));
        assert(dec_value(s.drop_last()) == 0);
    } else {
        lemma_dec_digits_roundtrip(n / 10);
        let head = dec_digits(n / 10);
        let s = dec_digits(n);
        assert(s == head + seq![(48 + n % 10) as u8]);
        assert(s.drop_last() =~= head);
        assert(s.last() == (48 + n % 10) as u8);
        assert(dec_value(s) == dec_value(head) * 10 + (n % 10));
        lemma_fundamental_div_mod(n as int, 10);
        assert(n == 10 * (n / 10) + n % 10);
        assert(dec_value(s) == n);
        assert forall|i: int| 0 <= i < s.len() implies is_dec_digit(#[trigger] s[i]) by {
            if i < head.len() {
                assert(s[i] == head[i]);
            }
        }
    }
}

/// The digits of a prefix spell at most the digits of the whole string.
proof fn lemma_dec_value_prefix_le(s: Seq<u8>, i: int)
    requires
        0 <= i <= s.len(),
    ensures
        dec_value(s.subrange(0, i)) <= dec_value(s),
    decreases s.len() - i,
{
    if i == s.len() {
        assert(s.subrange(0, i) =~= s);
    } else {
        lemma_dec_value_prefix_le(s, i + 1);
        let p = s.subrange(0, i + 1);
        assert(p.drop_last() =~= s.subrange(0, i));
        assert(dec_value(s.subrange(0, i)) <= dec_value(p));
    }
}

/// Formats `n` in decimal.
pub fn format_u128(n: u128) -> (r: Vec<u8>)
    ensures
        r@ == dec_digits(n as nat),
{
    let mut out: Vec<u8> = Vec::new();
    if n == 0 {
        out.push(48);
        assert(out@ =~= dec_digits(0));
        return out;
    }
    let mut x: u128 = n;
    while x > 0
        invariant
            x > 0 ==> dec_digits(n as nat) == dec_digits(x as nat) + out@,
            x == 0 ==> dec_digits(n as nat) == out@,
        decreases x,
    {
        let ghost out0 = out@;
        let ghost x0: nat = x as nat;
        let d: u8 = (x % 10) as u8 + 48;
        out.insert(0, d);
        proof {
            assert(out@ =~= seq![d] + out0);
            if x0 >= 10 {
                assert(dec_digits(x0) == dec_digits(x0 / 10) + seq![(48 + x0 % 10) as u8]);
                assert(dec_digits(n as nat) =~= dec_digits(x0 / 10) + out@);
            } else {
                assert(dec_digits(x0) =~= seq![(48 + x0) as u8]);
                assert(dec_digits(n as nat) =~= out@);
            }
        }
        x = x / 10;
    }
    out
}

/// Parses a decimal spelling; accepts exactly the non-empty all-digit
/// strings whose value fits the amount width.
pub fn parse_u128(s: &Vec<u8>) -> (r: Result<u128, SwapError>)
    ensures
        r matches Ok(v) ==> v == dec_value(s@),
        r is Ok <==> (s@.len() > 0 && all_dec_digits(s@) && dec_value(s@) <= u128::MAX),
        r is Err ==> r == Err::<u128, SwapError>(SwapError::MalformedContinuation),
{
    let n: usize = s.len();
    if n == 0 {
        return Err(SwapError::MalformedContinuation);
    }
    let mut acc: u128 = 0;
    let mut i: usize = 0;
    while i < n
        invariant
            n == s@.len(),
            0 < n,
            i <= n,
            acc == dec_value(s@.subrange(0, i as int)),
            all_dec_digits(s@.subrange(0, i as int)),
        decreases n - i,
    {
        let b: u8 = s[i];
        if !(48 <= b && b <= 57) {
            assert(!all_dec_digits(s@));
            return Err(SwapError::MalformedContinuation);
        }
        let ghost pre = s@.subrange(0, i as int);
        let ghost ext = s@.subrange(0, i + 1 as int);
        proof {
            assert(ext.drop_last() =~= pre);
            assert(ext.last() == s@[i as int]);
        }
        let step: Option<u128> = match acc.checked_mul(10) {
            Some(t) => t.checked_add((b - 48) as u128),
            None => None,
        };
        match step {
            Some(v) => {
                acc = v;
            },
            None => {
                proof {
                    assert(dec_value(ext) > u128::MAX);
                    lemma_dec_value_prefix_le(s@, i + 1);
                    assert(s@.subrange(0, s@.len() as int) =~= s@);
                }
                return Err(SwapError::MalformedContinuation);
            },
        }
        proof {
            assert(forall|j: int| 0 <= j < ext.len() ==> is_dec_digit(#[trigger] ext[j]));
        }
        i = i + 1;
    }
    proof {
        assert(s@.subrange(0, n as int) =~= s@);
    }
    Ok(acc)
}

} // verus!
