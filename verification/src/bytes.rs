//! Big-endian encoding of `u64` values and the lexicographic order on byte
//! sequences. The TTL index keys its entries by `big_endian(expiry) ++ key`,
//! so that the engine's lexicographic iteration order is time order.

use vstd::prelude::*;

verus! {

/// The eight big-endian bytes of `n`, most significant first.
#[verifier::opaque]
pub open spec fn spec_u64_to_be(n: u64) -> Seq<u8> {
    seq![
        ((n / 0x100000000000000) % 256) as u8,
        ((n / 0x1000000000000) % 256) as u8,
        ((n / 0x10000000000) % 256) as u8,
        ((n / 0x100000000) % 256) as u8,
        ((n / 0x1000000) % 256) as u8,
        ((n / 0x10000) % 256) as u8,
        ((n / 0x100) % 256) as u8,
        (n % 256) as u8,
    ]
}

/// The value of eight big-endian bytes.
#[verifier::opaque]
pub open spec fn spec_u64_from_be(s: Seq<u8>) -> u64
    recommends
        s.len() == 8,
{
    (s[0] as nat * 0x100000000000000 + s[1] as nat * 0x1000000000000 + s[2] as nat * 0x10000000000
        + s[3] as nat * 0x100000000 + s[4] as nat * 0x1000000 + s[5] as nat * 0x10000
        + s[6] as nat * 0x100 + s[7] as nat) as u64
}

/// A big-endian encoding is always eight bytes long.
pub broadcast proof fn lemma_u64_be_len(n: u64)
    ensures
        (#[trigger] spec_u64_to_be(n)).len() == 8,
{
    reveal(spec_u64_to_be);
}

pub proof fn lemma_u64_be_roundtrip(n: u64)
    ensures
        spec_u64_from_be(spec_u64_to_be(n)) == n,
{
    reveal(spec_u64_to_be);
    reveal(spec_u64_from_be);
    assert((n / 0x100000000000000) % 256 * 0x100000000000000 + (n / 0x1000000000000) % 256
        * 0x1000000000000 + (n / 0x10000000000) % 256 * 0x10000000000 + (n / 0x100000000) % 256
        * 0x100000000 + (n / 0x1000000) % 256 * 0x1000000 + (n / 0x10000) % 256 * 0x10000 + (n
        / 0x100) % 256 * 0x100 + n % 256 == n) by (bit_vector);
}

/// Big-endian encoding is injective.
pub proof fn lemma_u64_be_injective(a: u64, b: u64)
    requires
        spec_u64_to_be(a) == spec_u64_to_be(b),
    ensures
        a == b,
{
    lemma_u64_be_roundtrip(a);
    lemma_u64_be_roundtrip(b);
}

pub fn u64_to_be_bytes(n: u64) -> (r: Vec<u8>)
    ensures
        r@ == spec_u64_to_be(n),
{
    proof {
        reveal(spec_u64_to_be);
    }
    let mut r: Vec<u8> = Vec::new();
    r.push(((n / 0x100000000000000) % 256) as u8);
    r.push(((n / 0x1000000000000) % 256) as u8);
    r.push(((n / 0x10000000000) % 256) as u8);
    r.push(((n / 0x100000000) % 256) as u8);
    r.push(((n / 0x1000000) % 256) as u8);
    r.push(((n / 0x10000) % 256) as u8);
    r.push(((n / 0x100) % 256) as u8);
    r.push((n % 256) as u8);
    proof {
        assert(r@ =~= spec_u64_to_be(n));
    }
    r
}

/// Reads the eight bytes starting at `start` as a big-endian `u64`.
pub fn u64_from_be_bytes(s: &[u8], start: usize) -> (r: u64)
    requires
        start + 8 <= s@.len(),
    ensures
        r == spec_u64_from_be(s@.subrange(start as int, start as int + 8)),
{
    proof {
        reveal(spec_u64_from_be);
    }
    let ghost sub = s@.subrange(start as int, start as int + 8);
    let b0 = s[start];
    let b1 = s[start + 1];
    let b2 = s[start + 2];
    let b3 = s[start + 3];
    let b4 = s[start + 4];
    let b5 = s[start + 5];
    let b6 = s[start + 6];
    let b7 = s[start + 7];
    let r = b0 as u64 * 0x100000000000000 + b1 as u64 * 0x1000000000000 + b2 as u64
        * 0x10000000000 + b3 as u64 * 0x100000000 + b4 as u64 * 0x1000000 + b5 as u64 * 0x10000
        + b6 as u64 * 0x100 + b7 as u64;
    proof {
        assert(sub[0] == b0 && sub[1] == b1 && sub[2] == b2 && sub[3] == b3 && sub[4] == b4
            && sub[5] == b5 && sub[6] == b6 && sub[7] == b7);
    }
    r
}

/// Eight bytes re-encode to themselves through their value.
pub proof fn lemma_be_inverse(s: Seq<u8>)
    requires
        s.len() == 8,
    ensures
        spec_u64_to_be(spec_u64_from_be(s)) =~= s,
{
    reveal(spec_u64_to_be);
    reveal(spec_u64_from_be);
    let b0 = s[0];
    let b1 = s[1];
    let b2 = s[2];
    let b3 = s[3];
    let b4 = s[4];
    let b5 = s[5];
    let b6 = s[6];
    let b7 = s[7];
    let n = spec_u64_from_be(s);
    assert(n == b0 as u64 * 0x100000000000000 + b1 as u64 * 0x1000000000000 + b2 as u64
        * 0x10000000000 + b3 as u64 * 0x100000000 + b4 as u64 * 0x1000000 + b5 as u64 * 0x10000
        + b6 as u64 * 0x100 + b7 as u64);
    assert((n / 0x100000000000000) % 256 == b0 as u64 && (n / 0x1000000000000) % 256 == b1 as u64
        && (n / 0x10000000000) % 256 == b2 as u64 && (n / 0x100000000) % 256 == b3 as u64 && (n
        / 0x1000000) % 256 == b4 as u64 && (n / 0x10000) % 256 == b5 as u64 && (n / 0x100) % 256
        == b6 as u64 && n % 256 == b7 as u64) by (bit_vector)
        requires
            n == b0 as u64 * 0x100000000000000 + b1 as u64 * 0x1000000000000 + b2 as u64
                * 0x10000000000 + b3 as u64 * 0x100000000 + b4 as u64 * 0x1000000 + b5 as u64
                * 0x10000 + b6 as u64 * 0x100 + b7 as u64,
    ;
    assert(spec_u64_to_be(n) =~= s);
}

/// Strict lexicographic order on byte sequences.
pub open spec fn lex_lt(a: Seq<u8>, b: Seq<u8>) -> bool
    decreases a.len(),
{
    if b.len() == 0 {
        false
    } else if a.len() == 0 {
        true
    } else if a[0] < b[0] {
        true
    } else if a[0] > b[0] {
        false
    } else {
        lex_lt(a.skip(1), b.skip(1))
    }
}

/// Nothing is lexicographically below itself; two ordered keys differ.
pub proof fn lemma_lex_lt_irrefl(a: Seq<u8>)
    ensures
        !lex_lt(a, a),
    decreases a.len(),
{
    if a.len() > 0 {
        lemma_lex_lt_irrefl(a.skip(1));
    }
}

/// Appends all of `src` to `dst`.
pub fn push_bytes(dst: &mut Vec<u8>, src: &[u8])
    ensures
        final(dst)@ == old(dst)@ + src@,
{
    let mut i: usize = 0;
    while i < src.len()
        invariant
            0 <= i <= src@.len(),
            dst@ == old(dst)@ + src@.take(i as int),
        decreases src@.len() - i,
    {
        dst.push(src[i]);
        proof {
            assert(old(dst)@ + src@.take(i as int) + seq![src@[i as int]] =~= old(dst)@
                + src@.take(i + 1));
        }
        i += 1;
    }
    proof {
        assert(src@.take(src@.len() as int) =~= src@);
    }
}

/// The ASCII decimal digits of `n`, most significant first, with no
/// leading zeros (`0` itself is the single digit `0`).
pub open spec fn spec_u64_dec(n: u64) -> Seq<u8>
    decreases n,
{
    if n < 10 {
        seq![(0x30 + n) as u8]
    } else {
        spec_u64_dec((n / 10) as u64).push((0x30 + n % 10) as u8)
    }
}

pub fn u64_to_dec(n: u64) -> (r: Vec<u8>)
    ensures
        r@ == spec_u64_dec(n),
    decreases n,
{
    if n < 10 {
        let mut r: Vec<u8> = Vec::new();
        r.push((0x30 + n) as u8);
        proof {
            assert(r@ =~= spec_u64_dec(n));
        }
        r
    } else {
        let mut r = u64_to_dec(n / 10);
        r.push((0x30 + n % 10) as u8);
        r
    }
}

pub open spec fn is_digits(s: Seq<u8>) -> bool {
    forall|i: int| 0 <= i < s.len() ==> 0x30 <= #[trigger] s[i] <= 0x39
}

/// The numeric value of a string of ASCII decimal digits.
pub open spec fn spec_dec_value(s: Seq<u8>) -> nat
    decreases s.len(),
{
    if s.len() == 0 {
        0
    } else {
        (spec_dec_value(s.drop_last()) * 10 + (s.last() - 0x30)) as nat
    }
}

/// What parsing a decimal field yields: the value of a non-empty,
/// all-digit string whose value fits in a `u64`; nothing otherwise.
pub open spec fn spec_parse_u64(s: Seq<u8>) -> Option<u64> {
    if s.len() > 0 && is_digits(s) && spec_dec_value(s) <= u64::MAX {
        Some(spec_dec_value(s) as u64)
    } else {
        None
    }
}

/// Parses an ASCII decimal `u64`, rejecting empty input, non-digits and
/// overflow.
pub fn parse_u64_dec(s: &[u8]) -> (r: Option<u64>)
    ensures
        r == spec_parse_u64(s@),
{
    if s.len() == 0 {
        return None;
    }
    let mut acc: u64 = 0;
    let mut i: usize = 0;
    while i < s.len()
        invariant
            0 <= i <= s@.len(),
            s@.len() > 0,
            is_digits(s@.take(i as int)),
            spec_dec_value(s@.take(i as int)) == acc,
        decreases s@.len() - i,
    {
        let c = s[i];
        if c < 0x30 || c > 0x39 {
            proof {
                lemma_dec_value_not_digits(s@, i as int);
            }
            return None;
        }
        let d = (c - 0x30) as u64;
        proof {
            assert(s@.take(i + 1).drop_last() =~= s@.take(i as int));
            assert(s@.take(i + 1).last() == s@[i as int]);
        }
        let next = match acc.checked_mul(10) {
            Some(m) => m.checked_add(d),
            None => None,
        };
        match next {
            Some(x) => {
                acc = x;
            },
            None => {
                proof {
                    assert(spec_dec_value(s@.take(i + 1)) > u64::MAX);
                    if is_digits(s@) {
                        lemma_dec_value_grows(s@, i + 1);
                    }
                }
                return None;
            },
        }
        i += 1;
    }
    proof {
        assert(s@.take(s@.len() as int) =~= s@);
    }
    Some(acc)
}

/// If a prefix holds a non-digit, the whole string has one.
proof fn lemma_dec_value_not_digits(s: Seq<u8>, i: int)
    requires
        0 <= i < s.len(),
        !(0x30 <= s[i] <= 0x39),
    ensures
        spec_parse_u64(s) is None,
{
}

/// The value of an all-digit string is at least the value of any prefix.
proof fn lemma_dec_value_grows(s: Seq<u8>, i: int)
    requires
        0 <= i <= s.len(),
        is_digits(s),
    ensures
        spec_dec_value(s) >= spec_dec_value(s.take(i)),
    decreases s.len() - i,
{
    if i < s.len() {
        lemma_dec_value_grows(s, i + 1);
        assert(s.take(i + 1).drop_last() =~= s.take(i));
        assert(s.take(i + 1).last() == s[i]);
        assert(spec_dec_value(s.take(i + 1)) == spec_dec_value(s.take(i)) * 10 + (s[i] - 0x30));
        assert(spec_dec_value(s.take(i)) * 10 >= spec_dec_value(s.take(i))) by (nonlinear_arith);
    } else {
        assert(s.take(i) =~= s);
    }
}

/// Compares two byte slices for equality.
pub fn bytes_eq(a: &[u8], b: &[u8]) -> (r: bool)
    ensures
        r <==> a@ == b@,
{
    if a.len() != b.len() {
        proof {
            assert(a@.len() != b@.len());
        }
        return false;
    }
    let mut i: usize = 0;
    while i < a.len()
        invariant
            0 <= i <= a@.len(),
            a@.len() == b@.len(),
            forall|j: int| 0 <= j < i ==> a@[j] == b@[j],
        decreases a@.len() - i,
    {
        if a[i] != b[i] {
            return false;
        }
        i += 1;
    }
    proof {
        assert(a@ =~= b@);
    }
    true
}

} // verus!
