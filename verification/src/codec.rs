//! The ledger's native binary codec, as far as this pipeline uses it:
//! little-endian fixed-width integers and the compact length prefix that
//! introduces variable-length byte sequences.

use vstd::prelude::*;

verus! {

/// 256 raised to `n`: the number of values of an `n`-byte sequence.
pub open spec fn pow256(n: nat) -> nat
    decreases n,
{
    if n == 0 {
        1
    } else {
        256 * pow256((n - 1) as nat)
    }
}

/// The value of a little-endian byte sequence.
pub open spec fn le_value(s: Seq<u8>) -> nat
    decreases s.len(),
{
    if s.len() == 0 {
        0
    } else {
        (s.first() + 256 * le_value(s.drop_first())) as nat
    }
}

/// The `len`-byte little-endian encoding of `n` (modulo `pow256(len)`).
pub open spec fn le_bytes(n: nat, len: nat) -> Seq<u8>
    decreases len,
{
    if len == 0 {
        Seq::empty()
    } else {
        seq![(n % 256) as u8] + le_bytes(n / 256, (len - 1) as nat)
    }
}

pub proof fn lemma_le_value_bound(s: Seq<u8>)
    ensures
        le_value(s) < pow256(s.len()),
    decreases s.len(),
{
    if s.len() == 0 {
    } else {
        lemma_le_value_bound(s.drop_first());
        assert(le_value(s.drop_first()) + 1 <= pow256((s.len() - 1) as nat));
        assert(256 * (le_value(s.drop_first()) + 1) <= 256 * pow256((s.len() - 1) as nat))
            by (nonlinear_arith)
            requires
                le_value(s.drop_first()) + 1 <= pow256((s.len() - 1) as nat),
        ;
    }
}

pub proof fn lemma_le_bytes_len(n: nat, len: nat)
    ensures
        le_bytes(n, len).len() == len,
    decreases len,
{
    if len > 0 {
        lemma_le_bytes_len(n / 256, (len - 1) as nat);
    }
}

/// Encoding then evaluating gives the value back, when it fits.
pub proof fn lemma_le_bytes_value(n: nat, len: nat)
    requires
        n < pow256(len),
    ensures
        le_value(le_bytes(n, len)) == n,
    decreases len,
{
    if len == 0 {
    } else {
        assert(n / 256 < pow256((len - 1) as nat)) by (nonlinear_arith)
            requires
                n < 256 * pow256((len - 1) as nat),
        ;
        lemma_le_bytes_value(n / 256, (len - 1) as nat);
        let s = le_bytes(n, len);
        assert(s.drop_first() =~= le_bytes(n / 256, (len - 1) as nat));
        assert(n % 256 + 256 * (n / 256) == n) by (nonlinear_arith);
    }
}

/// Two values below the bound with the same encoding are the same value.
pub proof fn lemma_le_bytes_injective(a: nat, b: nat, len: nat)
    requires
        a < pow256(len),
        b < pow256(len),
        le_bytes(a, len) == le_bytes(b, len),
    ensures
        a == b,
{
    lemma_le_bytes_value(a, len);
    lemma_le_bytes_value(b, len);
}

/// The little-endian bytes of a `u32`, fixed width four.
pub fn u32_to_le_bytes(x: u32) -> (r: Vec<u8>)
    ensures
        r@ == le_bytes(x as nat, 4),
        r@.len() == 4,
{
    let mut r: Vec<u8> = Vec::new();
    let mut v: u32 = x;
    let mut i: usize = 0;
    while i < 4
        invariant
            0 <= i <= 4,
            le_bytes(x as nat, 4) == r@ + le_bytes(v as nat, (4 - i) as nat),
            r@.len() == i,
        decreases 4 - i,
    {
        r.push((v % 256) as u8);
        v = v / 256;
        i = i + 1;
    }
    proof {
        lemma_le_bytes_len(x as nat, 4);
        assert(r@ =~= le_bytes(x as nat, 4));
    }
    r
}

/// The little-endian bytes of a `u64`, fixed width eight.
pub fn u64_to_le_bytes(x: u64) -> (r: Vec<u8>)
    ensures
        r@ == le_bytes(x as nat, 8),
        r@.len() == 8,
{
    let mut r: Vec<u8> = Vec::new();
    let mut v: u64 = x;
    let mut i: usize = 0;
    while i < 8
        invariant
            0 <= i <= 8,
            le_bytes(x as nat, 8) == r@ + le_bytes(v as nat, (8 - i) as nat),
            r@.len() == i,
        decreases 8 - i,
    {
        r.push((v % 256) as u8);
        v = v / 256;
        i = i + 1;
    }
    proof {
        lemma_le_bytes_len(x as nat, 8);
        assert(r@ =~= le_bytes(x as nat, 8));
    }
    r
}

/// The little-endian bytes of a `u128`, fixed width sixteen.
pub fn u128_to_le_bytes(x: u128) -> (r: Vec<u8>)
    ensures
        r@ == le_bytes(x as nat, 16),
        r@.len() == 16,
{
    let mut r: Vec<u8> = Vec::new();
    let mut v: u128 = x;
    let mut i: usize = 0;
    while i < 16
        invariant
            0 <= i <= 16,
            le_bytes(x as nat, 16) == r@ + le_bytes(v as nat, (16 - i) as nat),
            r@.len() == i,
        decreases 16 - i,
    {
        r.push((v % 256) as u8);
        v = v / 256;
        i = i + 1;
    }
    proof {
        lemma_le_bytes_len(x as nat, 16);
        assert(r@ =~= le_bytes(x as nat, 16));
    }
    r
}

/// Reads a little-endian `u64` from at most eight bytes.
pub fn le_bytes_to_u64(b: &[u8]) -> (r: u64)
    requires
        b@.len() <= 8,
    ensures
        r as nat == le_value(b@),
{
    proof {
        lemma_le_value_bound(b@);
        lemma_pow256_values();
        lemma_pow256_le(b@.len(), 8);
    }
    let mut acc: u64 = 0;
    let mut i: usize = b.len();
    while i > 0
        invariant
            0 <= i <= b@.len() <= 8,
            acc as nat == le_value(b@.skip(i as int)),
        decreases i,
    {
        i = i - 1;
        proof {
            assert(b@.skip(i as int).drop_first() =~= b@.skip(i + 1));
            lemma_le_value_bound(b@.skip(i as int));
            lemma_pow256_le(b@.skip(i as int).len(), 8);
            lemma_pow256_values();
        }
        acc = acc * 256 + (b[i] as u64);
    }
    proof {
        assert(b@.skip(0) =~= b@);
    }
    acc
}

/// Reads a little-endian `u128` from at most sixteen bytes.
pub fn le_bytes_to_u128(b: &[u8]) -> (r: u128)
    requires
        b@.len() <= 16,
    ensures
        r as nat == le_value(b@),
{
    proof {
        lemma_le_value_bound(b@);
        lemma_pow256_values();
        lemma_pow256_le(b@.len(), 16);
    }
    let mut acc: u128 = 0;
    let mut i: usize = b.len();
    while i > 0
        invariant
            0 <= i <= b@.len() <= 16,
            acc as nat == le_value(b@.skip(i as int)),
        decreases i,
    {
        i = i - 1;
        proof {
            assert(b@.skip(i as int).drop_first() =~= b@.skip(i + 1));
            lemma_le_value_bound(b@.skip(i as int));
            lemma_pow256_le(b@.skip(i as int).len(), 16);
            lemma_pow256_values();
        }
        acc = acc * 256 + (b[i] as u128);
    }
    proof {
        assert(b@.skip(0) =~= b@);
    }
    acc
}

/// The byte-count bounds this codec works with, as concrete numbers.
pub proof fn lemma_pow256_values()
    ensures
        pow256(2) == 0x10000,
        pow256(4) == 0x100000000,
        pow256(8) == 0x10000000000000000,
        pow256(16) == 0x100000000000000000000000000000000,
{
    reveal_with_fuel(pow256, 17);
}

/// Unfolds the value of a one-byte little-endian sequence.
proof fn lemma_le_value_1(s: Seq<u8>)
    requires
        s.len() == 1,
    ensures
        le_value(s) == s[0],
{
    assert(s.drop_first() =~= Seq::<u8>::empty());
    assert(le_value(Seq::<u8>::empty()) == 0);
}

/// Unfolds the value of a two-byte little-endian sequence.
proof fn lemma_le_value_2(s: Seq<u8>)
    requires
        s.len() == 2,
    ensures
        le_value(s) == s[0] + 256 * s[1],
{
    lemma_le_value_1(s.drop_first());
    assert(s.drop_first()[0] == s[1]);
}

pub proof fn lemma_pow256_le(a: nat, b: nat)
    requires
        a <= b,
    ensures
        pow256(a) <= pow256(b),
    decreases b,
{
    if a < b {
        lemma_pow256_le(a, (b - 1) as nat);
        assert(pow256(b) == 256 * pow256((b - 1) as nat));
        assert(1 * pow256((b - 1) as nat) <= 256 * pow256((b - 1) as nat)) by (nonlinear_arith);
    }
}

/// The largest length a compact prefix of this codec can introduce.
pub open spec fn compact_max() -> nat {
    0x40000000
}

/// The compact encoding of a length: one byte below 64, two bytes below
/// 2^14, four bytes below 2^30, with the mode in the two lowest bits.
pub open spec fn compact_bytes(n: nat) -> Seq<u8>
    recommends
        n < compact_max(),
{
    if n < 64 {
        seq![(n * 4) as u8]
    } else if n < 16384 {
        le_bytes(n * 4 + 1, 2)
    } else {
        le_bytes(n * 4 + 2, 4)
    }
}

/// What a compact prefix at the head of `s` decodes to: the introduced
/// length and the number of prefix bytes consumed, or nothing when the
/// head is not a well-formed prefix of this codec.
pub open spec fn parse_compact(s: Seq<u8>) -> Option<(nat, nat)> {
    if s.len() >= 1 && s.first() % 4 == 0 {
        Some(((s.first() / 4) as nat, 1))
    } else if s.len() >= 2 && s.first() % 4 == 1 {
        if le_value(s.take(2)) / 4 >= 64 {
            Some((le_value(s.take(2)) / 4, 2))
        } else {
            None
        }
    } else if s.len() >= 4 && s.first() % 4 == 2 {
        if le_value(s.take(4)) / 4 >= 16384 {
            Some((le_value(s.take(4)) / 4, 4))
        } else {
            None
        }
    } else {
        None
    }
}

/// A compact prefix followed by anything parses back to what was encoded.
pub proof fn lemma_compact_round_trip(n: nat, rest: Seq<u8>)
    requires
        n < compact_max(),
    ensures
        compact_bytes(n).len() == if n < 64 {
            1nat
        } else if n < 16384 {
            2nat
        } else {
            4nat
        },
        parse_compact(compact_bytes(n) + rest) == Some((n, compact_bytes(n).len())),
{
    let s = compact_bytes(n) + rest;
    lemma_pow256_values();
    if n < 64 {
        assert(s.first() == (n * 4) as u8);
        assert((n * 4) as u8 == n * 4);
        assert((n * 4) % 4 == 0 && (n * 4) / 4 == n) by (nonlinear_arith);
    } else if n < 16384 {
        lemma_le_bytes_len((n * 4 + 1) as nat, 2);
        lemma_le_bytes_value((n * 4 + 1) as nat, 2);
        assert(s.take(2) =~= le_bytes((n * 4 + 1) as nat, 2));
        assert(le_value(s.take(2)) == n * 4 + 1);
        assert((n * 4 + 1) % 4 == 1 && (n * 4 + 1) / 4 == n) by (nonlinear_arith);
        assert(s.first() == s.take(2).first());
        lemma_first_byte_mod(s.take(2));
    } else {
        lemma_le_bytes_len((n * 4 + 2) as nat, 4);
        lemma_le_bytes_value((n * 4 + 2) as nat, 4);
        assert(s.take(4) =~= le_bytes((n * 4 + 2) as nat, 4));
        assert(le_value(s.take(4)) == n * 4 + 2);
        assert((n * 4 + 2) % 4 == 2 && (n * 4 + 2) / 4 == n) by (nonlinear_arith);
        assert(s.first() == s.take(4).first());
        lemma_first_byte_mod(s.take(4));
    }
}

/// The low two bits of a little-endian value are the low two bits of its
/// first byte.
proof fn lemma_first_byte_mod(s: Seq<u8>)
    requires
        s.len() >= 1,
    ensures
        le_value(s) % 4 == s.first() % 4,
{
    assert(le_value(s) == s.first() + 256 * le_value(s.drop_first()));
    assert((s.first() + 256 * le_value(s.drop_first())) % 4 == s.first() % 4)
        by (nonlinear_arith);
}

/// Appends the compact encoding of `n` to `out`.
pub fn encode_compact(out: &mut Vec<u8>, n: usize)
    requires
        n < compact_max(),
    ensures
        final(out)@ == old(out)@ + compact_bytes(n as nat),
{
    if n < 64 {
        out.push((n * 4) as u8);
        assert(final(out)@ =~= old(out)@ + compact_bytes(n as nat));
    } else if n < 16384 {
        let b = u32_to_le_bytes((n * 4 + 1) as u32);
        out.push(b[0]);
        out.push(b[1]);
        proof {
            lemma_le_two_of_four((n * 4 + 1) as nat);
            assert(final(out)@ =~= old(out)@ + compact_bytes(n as nat));
        }
    } else {
        let b = u32_to_le_bytes((n * 4 + 2) as u32);
        out.push(b[0]);
        out.push(b[1]);
        out.push(b[2]);
        out.push(b[3]);
        proof {
            lemma_le_bytes_len((n * 4 + 2) as nat, 4);
            assert(final(out)@ =~= old(out)@ + compact_bytes(n as nat));
        }
    }
}

/// The first two bytes of a four-byte little-endian encoding are the
/// two-byte encoding, when the value fits in two bytes.
proof fn lemma_le_two_of_four(n: nat)
    requires
        n < 65536,
    ensures
        le_bytes(n, 4).take(2) =~= le_bytes(n, 2),
{
    assert(le_bytes(n, 4) == seq![(n % 256) as u8] + le_bytes(n / 256, 3));
    assert(le_bytes(n / 256, 3) == seq![((n / 256) % 256) as u8] + le_bytes(n / 256 / 256, 2));
    assert(le_bytes(n, 2) == seq![(n % 256) as u8] + le_bytes(n / 256, 1));
    assert(le_bytes(n / 256, 1) == seq![((n / 256) % 256) as u8] + le_bytes(n / 256 / 256, 0));
    lemma_le_bytes_len(n / 256 / 256, 2);
}

/// Reads a compact prefix at offset `pos`; returns the introduced length
/// and the offset just past the prefix.
pub fn read_compact(b: &[u8], pos: usize) -> (r: Option<(usize, usize)>)
    requires
        pos <= b@.len(),
    ensures
        match r {
            Some((n, newpos)) => {
                &&& parse_compact(b@.skip(pos as int)) == Some(
                    ((n as nat), ((newpos - pos) as nat)),
                )
                &&& pos < newpos <= b@.len()
                &&& n < compact_max()
            },
            None => parse_compact(b@.skip(pos as int)) is None,
        },
{
    let ghost s = b@.skip(pos as int);
    if pos >= b.len() {
        return None;
    }
    let first = b[pos];
    proof {
        assert(s.first() == b@[pos as int]);
    }
    let mode = first % 4;
    if mode == 0 {
        Some(((first / 4) as usize, pos + 1))
    } else if mode == 1 {
        if b.len() - pos < 2 {
            return None;
        }
        let v: usize = first as usize + 256 * (b[pos + 1] as usize);
        proof {
            assert(s.take(2) =~= seq![b@[pos as int], b@[pos as int + 1]]);
            lemma_le_value_2(s.take(2));
            lemma_div_mod_4(v as nat);
        }
        if v / 4 >= 64 {
            Some((v / 4, pos + 2))
        } else {
            None
        }
    } else if mode == 2 {
        if b.len() - pos < 4 {
            return None;
        }
        let v: u64 = first as u64 + 256 * (b[pos + 1] as u64) + 65536 * (b[pos + 2] as u64)
            + 16777216 * (b[pos + 3] as u64);
        proof {
            assert(s.take(4) =~= seq![
                b@[pos as int],
                b@[pos as int + 1],
                b@[pos as int + 2],
                b@[pos as int + 3],
            ]);
            lemma_le_value_4(s.take(4));
            lemma_div_mod_4(v as nat);
        }
        if v / 4 >= 16384 {
            Some(((v / 4) as usize, pos + 4))
        } else {
            None
        }
    } else {
        None
    }
}

/// Unfolds the value of a four-byte little-endian sequence.
proof fn lemma_le_value_4(s: Seq<u8>)
    requires
        s.len() == 4,
    ensures
        le_value(s) == s[0] + 256 * s[1] + 65536 * s[2] + 16777216 * s[3],
{
    let s1 = s.drop_first();
    let s2 = s1.drop_first();
    let s3 = s2.drop_first();
    assert(s3.drop_first() =~= Seq::<u8>::empty());
    assert(le_value(Seq::<u8>::empty()) == 0);
    assert(le_value(s3) == s3.first());
    assert(le_value(s2) == s2.first() + 256 * le_value(s3));
    assert(le_value(s1) == s1.first() + 256 * le_value(s2));
    assert(le_value(s) == s.first() + 256 * le_value(s1));
    assert(s1[0] == s[1] && s2[0] == s[2] && s3[0] == s[3]);
    let (x0, x1, x2, x3) = (s[0] as int, s[1] as int, s[2] as int, s[3] as int);
    assert(x0 + 256 * (x1 + 256 * (x2 + 256 * x3)) == x0 + 256 * x1 + 65536 * x2 + 16777216 * x3)
        by (nonlinear_arith);
}

/// `v % 4` and `v / 4` recover the mode and payload of a compact prefix.
proof fn lemma_div_mod_4(v: nat)
    ensures
        v % 4 == 1 ==> v / 4 * 4 + 1 == v,
        v % 4 == 2 ==> v / 4 * 4 + 2 == v,
{
    assert(v / 4 * 4 + v % 4 == v) by (nonlinear_arith);
}

} // verus!
