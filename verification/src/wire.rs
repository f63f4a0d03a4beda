//! The wire protocol: how a payload address travels over the two streams.
//!
//! Toward the worker an address is sent as its fixed-width big-endian
//! encoding, a raw internal transport.  Toward the host the same kind of
//! address is sent as ASCII decimal digits, because that direction is
//! re-interpreted by the host's generic text notification path and must be
//! ASCII-safe.  The zero address is the close sentinel and never names a
//! payload.

use vstd::prelude::*;

verus! {

/// The reserved address that signals "stream closed".
pub const SENTINEL: u64 = 0;

/// The width in bytes of the fixed-width address field on the raw stream.
pub fn ptr_size() -> (r: usize)
    ensures
        r == 8,
{
    8
}

/// The sentinel address: the encoding of the null pointer.
pub fn nullptr() -> (r: u64)
    ensures
        r == SENTINEL,
{
    0
}

/// The fixed-width big-endian encoding of an address.
pub open spec fn spec_be_bytes(x: u64) -> Seq<u8> {
    seq![
        (x >> 56) as u8,
        (x >> 48) as u8,
        (x >> 40) as u8,
        (x >> 32) as u8,
        (x >> 24) as u8,
        (x >> 16) as u8,
        (x >> 8) as u8,
        x as u8,
    ]
}

/// The address read back from a fixed-width big-endian field.
pub open spec fn spec_be_value(s: Seq<u8>) -> u64
    recommends
        s.len() == 8,
{
    (((s[0] as u64) << 56) | ((s[1] as u64) << 48) | ((s[2] as u64) << 40) | ((s[3] as u64)
        << 32) | ((s[4] as u64) << 24) | ((s[5] as u64) << 16) | ((s[6] as u64) << 8) | (
    s[7] as u64)) as u64
}

/// Decoding a big-endian field gives back the encoded address.
pub proof fn lemma_be_round_trip(x: u64)
    ensures
        spec_be_value(spec_be_bytes(x)) == x,
{
    let b0 = (x >> 56) as u8;
    let b1 = (x >> 48) as u8;
    let b2 = (x >> 40) as u8;
    let b3 = (x >> 32) as u8;
    let b4 = (x >> 24) as u8;
    let b5 = (x >> 16) as u8;
    let b6 = (x >> 8) as u8;
    let b7 = x as u8;
    assert((((b0 as u64) << 56) | ((b1 as u64) << 48) | ((b2 as u64) << 40) | ((b3 as u64)
        << 32) | ((b4 as u64) << 24) | ((b5 as u64) << 16) | ((b6 as u64) << 8) | (
    b7 as u64)) == x) by (bit_vector)
        requires
            b0 == (x >> 56) as u8,
            b1 == (x >> 48) as u8,
            b2 == (x >> 40) as u8,
            b3 == (x >> 32) as u8,
            b4 == (x >> 24) as u8,
            b5 == (x >> 16) as u8,
            b6 == (x >> 8) as u8,
            b7 == x as u8,
    ;
}

/// Writes the fixed-width big-endian encoding of an address.
pub fn u64_to_be_bytes(x: u64) -> (r: Vec<u8>)
    ensures
        r@ == spec_be_bytes(x),
        r@.len() == 8,
{
    let mut v: Vec<u8> = Vec::new();
    v.push(#[verifier::truncate] ((x >> 56) as u8));
    v.push(#[verifier::truncate] ((x >> 48) as u8));
    v.push(#[verifier::truncate] ((x >> 40) as u8));
    v.push(#[verifier::truncate] ((x >> 32) as u8));
    v.push(#[verifier::truncate] ((x >> 24) as u8));
    v.push(#[verifier::truncate] ((x >> 16) as u8));
    v.push(#[verifier::truncate] ((x >> 8) as u8));
    v.push(#[verifier::truncate] (x as u8));
    proof {
        assert(v@ =~= spec_be_bytes(x));
    }
    v
}

/// Reads the fixed-width big-endian field that starts at `offset`.
pub fn u64_from_be_bytes(v: &Vec<u8>, offset: usize) -> (r: u64)
    requires
        offset + 8 <= v@.len(),
        v@.len() <= usize::MAX,
    ensures
        r == spec_be_value(v@.subrange(offset as int, offset + 8)),
{
    let r = ((v[offset] as u64) << 56) | ((v[offset + 1] as u64) << 48) | ((v[offset + 2] as u64)
        << 40) | ((v[offset + 3] as u64) << 32) | ((v[offset + 4] as u64) << 24) | ((v[offset
        + 5] as u64) << 16) | ((v[offset + 6] as u64) << 8) | (v[offset + 7] as u64);
    proof {
        let s = v@.subrange(offset as int, offset + 8);
        assert(s[0] == v@[offset as int]);
        assert(s[1] == v@[offset + 1]);
        assert(s[2] == v@[offset + 2]);
        assert(s[3] == v@[offset + 3]);
        assert(s[4] == v@[offset + 4]);
        assert(s[5] == v@[offset + 5]);
        assert(s[6] == v@[offset + 6]);
        assert(s[7] == v@[offset + 7]);
    }
    r
}

/// An ASCII decimal digit.
pub open spec fn spec_is_digit(b: u8) -> bool {
    48 <= b <= 57
}

/// Every byte of the sequence is an ASCII decimal digit.
pub open spec fn spec_all_digits(s: Seq<u8>) -> bool {
    forall|i: int| 0 <= i < s.len() ==> spec_is_digit(s[i])
}

/// The ASCII decimal digits of an address, most significant first, with no
/// leading zeros except for the address zero itself.
pub open spec fn spec_decimal_digits(n: u64) -> Seq<u8>
    decreases n,
{
    if n < 10 {
        seq![(48 + n) as u8]
    } else {
        spec_decimal_digits(n / 10).push((48 + n % 10) as u8)
    }
}

/// The number named by a sequence of ASCII decimal digits.
pub open spec fn spec_decimal_value(s: Seq<u8>) -> int
    decreases s.len(),
{
    if s.len() == 0 {
        0
    } else {
        spec_decimal_value(s.drop_last()) * 10 + (s.last() - 48)
    }
}

/// A digit string names a non-negative number.
pub proof fn lemma_decimal_value_nonneg(s: Seq<u8>)
    requires
        spec_all_digits(s),
    ensures
        spec_decimal_value(s) >= 0,
    decreases s.len(),
{
    if s.len() > 0 {
        assert(spec_all_digits(s.drop_last()));
        lemma_decimal_value_nonneg(s.drop_last());
    }
}

/// Reading more digits never shrinks the number: the value of a prefix is
/// at most the value of the whole digit string.
pub proof fn lemma_decimal_prefix_le(s: Seq<u8>, i: int, j: int)
    requires
        spec_all_digits(s),
        0 <= i <= j <= s.len(),
    ensures
        spec_decimal_value(s.subrange(0, i)) <= spec_decimal_value(s.subrange(0, j)),
    decreases j - i,
{
    if i < j {
        let shorter = s.subrange(0, j - 1);
        let longer = s.subrange(0, j);
        assert(longer.drop_last() =~= shorter);
        assert(spec_all_digits(shorter));
        lemma_decimal_value_nonneg(shorter);
        assert(spec_is_digit(longer.last()));
        assert(spec_decimal_value(longer) >= spec_decimal_value(shorter));
        lemma_decimal_prefix_le(s, i, j - 1);
    }
}

/// The decimal encoding of an address is a non-empty digit string that
/// names exactly that address.
pub proof fn lemma_decimal_round_trip(x: u64)
    ensures
        spec_decimal_digits(x).len() > 0,
        spec_all_digits(spec_decimal_digits(x)),
        spec_decimal_value(spec_decimal_digits(x)) == x,
    decreases x,
{
    if x < 10 {
        let s = spec_decimal_digits(x);
        assert(s =~= seq![(48 + x) as u8]);
        assert(s.drop_last() =~= Seq::<u8>::empty());
        assert(spec_decimal_value(Seq::<u8>::empty()) == 0);
        assert(s.last() == (48 + x) as u8);
        assert(spec_decimal_value(s) == spec_decimal_value(s.drop_last()) * 10 + (s.last() - 48));
    } else {
        lemma_decimal_round_trip(x / 10);
        let s = spec_decimal_digits(x);
        assert(s.drop_last() =~= spec_decimal_digits(x / 10));
        assert(s.last() == (48 + x % 10) as u8);
        vstd::arithmetic::div_mod::lemma_fundamental_div_mod(x as int, 10);
        assert(forall|i: int| 0 <= i < s.len() ==> spec_is_digit(s[i]));
    }
}

/// Writes an address as ASCII decimal digits.
pub fn u64_to_decimal(x: u64) -> (r: Vec<u8>)
    ensures
        r@ == spec_decimal_digits(x),
    decreases x,
{
    if x < 10 {
        let mut v: Vec<u8> = Vec::new();
        v.push(48 + (x as u8));
        proof {
            assert(v@ =~= spec_decimal_digits(x));
        }
        v
    } else {
        let mut v = u64_to_decimal(x / 10);
        v.push(48 + ((x % 10) as u8));
        v
    }
}

/// Parses ASCII decimal digits back into an address.  The parse succeeds
/// exactly on a non-empty, all-digit string whose value fits the address
/// width; anything else is a malformed frame.
pub fn parse_decimal(s: &Vec<u8>) -> (r: Option<u64>)
    ensures
        r is Some <==> (s@.len() > 0 && spec_all_digits(s@) && spec_decimal_value(s@)
            <= u64::MAX),
        r matches Some(v) ==> v == spec_decimal_value(s@),
{
    if s.len() == 0 {
        return None;
    }
    let mut acc: u64 = 0;
    let mut i: usize = 0;
    while i < s.len()
        invariant
            0 <= i <= s@.len(),
            s@.len() > 0,
            spec_all_digits(s@.subrange(0, i as int)),
            acc == spec_decimal_value(s@.subrange(0, i as int)),
        decreases s@.len() - i,
    {
        let b = s[i];
        if b < 48 || b > 57 {
            assert(!spec_is_digit(s@[i as int]));
            return None;
        }
        let d = b - 48;
        if acc > (u64::MAX - (d as u64)) / 10 {
            proof {
                let prefix = s@.subrange(0, i + 1);
                assert(prefix.drop_last() =~= s@.subrange(0, i as int));
                assert(prefix.last() == s@[i as int]);
                assert(spec_decimal_value(prefix) == acc * 10 + d);
                assert(acc * 10 + d > u64::MAX) by {
                    assert(acc >= (u64::MAX - d) / 10 + 1);
                    assert(((u64::MAX - d) / 10) * 10 + (u64::MAX - d) % 10 == u64::MAX - d);
                };
                if spec_all_digits(s@) {
                    lemma_decimal_prefix_le(s@, i + 1, s@.len() as int);
                    assert(s@.subrange(0, s@.len() as int) =~= s@);
                    assert(spec_decimal_value(s@) > u64::MAX);
                }
            }
            return None;
        }
        proof {
            let prefix = s@.subrange(0, i + 1);
            assert(prefix.drop_last() =~= s@.subrange(0, i as int));
            assert(prefix.last() == s@[i as int]);
            assert(acc * 10 + d <= u64::MAX) by {
                assert(acc <= (u64::MAX - d) / 10);
                assert(((u64::MAX - d) / 10) * 10 + (u64::MAX - d) % 10 == u64::MAX - d);
            };
        }
        acc = acc * 10 + (d as u64);
        i = i + 1;
    }
    proof {
        assert(s@.subrange(0, i as int) =~= s@);
    }
    Some(acc)
}

} // verus!
