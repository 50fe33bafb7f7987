//! Splitting a byte string on a separator, and the algebra the
//! continuation codec's round-trip proof rests on.

use vstd::prelude::*;

verus! {

/// True when `s` never holds the separator byte.
pub open spec fn sep_free(s: Seq<u8>, sep: u8) -> bool {
    forall|i: int| 0 <= i < s.len() ==> s[i] != sep
}

/// Splitting on a separator: one part more than there are separators,
/// parts possibly empty.
pub open spec fn spec_split(s: Seq<u8>, sep: u8) -> Seq<Seq<u8>>
    decreases s.len(),
{
    if s.len() == 0 {
        seq![Seq::<u8>::empty()]
    } else if s[0] == sep {
        seq![Seq::<u8>::empty()] + spec_split(s.drop_first(), sep)
    } else {
        let rest = spec_split(s.drop_first(), sep);
        seq![seq![s[0]] + rest[0]] + rest.drop_first()
    }
}

/// A split always has at least one part.
pub proof fn lemma_split_len(s: Seq<u8>, sep: u8)
    ensures
        spec_split(s, sep).len() >= 1,
    decreases s.len(),
{
    if s.len() == 0 {
    } else {
        lemma_split_len(s.drop_first(), sep)
    }
}

/// A separator-free string is exactly one part.
pub proof fn lemma_split_single(a: Seq<u8>, sep: u8)
    requires
        sep_free(a, sep),
    ensures
        spec_split(a, sep) == seq![a],
    decreases a.len(),
{
    if a.len() == 0 {
        assert(spec_split(a, sep) =~~= seq![a]);
    } else {
        assert(sep_free(a.drop_first(), sep)) by {
            assert(forall|i: int|
                0 <= i < a.drop_first().len() ==> a.drop_first()[i] == a[i + 1]);
        }
        lemma_split_single(a.drop_first(), sep);
        lemma_split_len(a.drop_first(), sep);
        let rest = spec_split(a.drop_first(), sep);
        assert(rest[0] == a.drop_first());
        assert(seq![a[0]] + rest[0] =~= a);
        assert(rest.drop_first() =~= Seq::<Seq<u8>>::empty());
        assert(spec_split(a, sep) =~= seq![a]);
    }
}

/// Splitting peels off a leading separator-free part.
pub proof fn lemma_split_prefix(a: Seq<u8>, b: Seq<u8>, sep: u8)
    requires
        sep_free(a, sep),
    ensures
        spec_split(a + seq![sep] + b, sep) == seq![a] + spec_split(b, sep),
    decreases a.len(),
{
    let s = a + seq![sep] + b;
    if a.len() == 0 {
        assert(s[0] == sep);
        assert(s.drop_first() =~= b);
        assert(seq![Seq::<u8>::empty()] + spec_split(b, sep) =~~= seq![a] + spec_split(b, sep));
    } else {
        assert(s[0] == a[0]);
        assert(a[0] != sep);
        assert(sep_free(a.drop_first(), sep)) by {
            assert(forall|i: int|
                0 <= i < a.drop_first().len() ==> a.drop_first()[i] == a[i + 1]);
        }
        assert(s.drop_first() =~= a.drop_first() + seq![sep] + b);
        lemma_split_prefix(a.drop_first(), b, sep);
        lemma_split_len(b, sep);
        let rest = spec_split(s.drop_first(), sep);
        assert(rest == seq![a.drop_first()] + spec_split(b, sep));
        assert(rest[0] == a.drop_first());
        assert(seq![s[0]] + rest[0] =~= a);
        assert(rest.drop_first() =~= spec_split(b, sep));
        assert(spec_split(s, sep) =~= seq![a] + spec_split(b, sep));
    }
}

/// Splits `s` on the separator.
pub fn split_bytes(s: &Vec<u8>, sep: u8) -> (parts: Vec<Vec<u8>>)
    ensures
        parts@.map_values(|p: Vec<u8>| p@) == spec_split(s@, sep),
        parts@.len() >= 1,
{
    let n: usize = s.len();
    let mut parts: Vec<Vec<u8>> = Vec::new();
    let mut cur: Vec<u8> = Vec::new();
    let mut i: usize = 0;
    proof {
        assert(cur@ + s@.subrange(0, n as int) =~= s@);
        assert(parts@.map_values(|p: Vec<u8>| p@) =~= Seq::<Seq<u8>>::empty());
    }
    while i < n
        invariant
            n == s@.len(),
            i <= n,
            sep_free(cur@, sep),
            spec_split(s@, sep) == parts@.map_values(|p: Vec<u8>| p@) + spec_split(
                cur@ + s@.subrange(i as int, n as int),
                sep,
            ),
        decreases n - i,
    {
        let c: u8 = s[i];
        if c == sep {
            proof {
                assert(cur@ + s@.subrange(i as int, n as int) =~= cur@ + seq![sep]
                    + s@.subrange(i + 1 as int, n as int));
                lemma_split_prefix(cur@, s@.subrange(i + 1 as int, n as int), sep);
            }
            let ghost parts0 = parts@;
            let ghost cur0 = cur@;
            parts.push(cur);
            cur = Vec::new();
            proof {
                assert(parts@.map_values(|p: Vec<u8>| p@) =~= parts0.map_values(
                    |p: Vec<u8>| p@,
                ) + seq![cur0]);
                assert(cur@ + s@.subrange(i + 1 as int, n as int) =~= s@.subrange(
                    i + 1 as int,
                    n as int,
                ));
            }
        } else {
            let ghost cur0 = cur@;
            cur.push(c);
            proof {
                assert(cur@ + s@.subrange(i + 1 as int, n as int) =~= cur0 + s@.subrange(
                    i as int,
                    n as int,
                ));
            }
        }
        i = i + 1;
    }
    proof {
        assert(cur@ + s@.subrange(n as int, n as int) =~= cur@);
        lemma_split_single(cur@, sep);
    }
    let ghost parts0 = parts@;
    let ghost cur0 = cur@;
    parts.push(cur);
    proof {
        assert(parts@.map_values(|p: Vec<u8>| p@) =~= parts0.map_values(|p: Vec<u8>| p@)
            + seq![cur0]);
    }
    parts
}

} // verus!
