//! Hex text as the ledger's RPC surface uses it: storage values and event
//! batches arrive as `0x`-prefixed hex strings, and signed transactions are
//! submitted the same way.

use vstd::prelude::*;
use vstd::string::StringSliceAdditionalSpecFns;
use crate::Error;
use crate::codec::le_value;

verus! {

/// Whether `c` is an ASCII hex digit, upper or lower case.
pub open spec fn is_hex_digit(c: u8) -> bool {
    (0x30 <= c <= 0x39) || (0x41 <= c <= 0x46) || (0x61 <= c <= 0x66)
}

/// The value of an ASCII hex digit.
pub open spec fn nibble_val(c: u8) -> nat {
    if 0x30 <= c <= 0x39 {
        (c - 0x30) as nat
    } else if 0x41 <= c <= 0x46 {
        (c - 0x41 + 10) as nat
    } else if 0x61 <= c <= 0x66 {
        (c - 0x61 + 10) as nat
    } else {
        0
    }
}

/// Whether `s` is a well-formed hex text: even length, hex digits only.
pub open spec fn hex_valid(s: Seq<u8>) -> bool {
    &&& s.len() % 2 == 0
    &&& forall|i: int| 0 <= i < s.len() ==> is_hex_digit(#[trigger] s[i])
}

/// The bytes a well-formed hex text denotes, two digits per byte.
pub open spec fn hex_bytes(s: Seq<u8>) -> Seq<u8>
    decreases s.len(),
{
    if s.len() < 2 {
        Seq::empty()
    } else {
        seq![(16 * nibble_val(s[0]) + nibble_val(s[1])) as u8] + hex_bytes(s.skip(2))
    }
}

/// `s` without a leading `0x`, if it carries one.
pub open spec fn strip_0x(s: Seq<u8>) -> Seq<u8> {
    if s.len() >= 2 && s[0] == 0x30 && s[1] == 0x78 {
        s.skip(2)
    } else {
        s
    }
}

/// The lower-case hex digit of a nibble, as a character.
pub open spec fn nibble_char(n: nat) -> char {
    if n == 0 {
        '0'
    } else if n == 1 {
        '1'
    } else if n == 2 {
        '2'
    } else if n == 3 {
        '3'
    } else if n == 4 {
        '4'
    } else if n == 5 {
        '5'
    } else if n == 6 {
        '6'
    } else if n == 7 {
        '7'
    } else if n == 8 {
        '8'
    } else if n == 9 {
        '9'
    } else if n == 10 {
        'a'
    } else if n == 11 {
        'b'
    } else if n == 12 {
        'c'
    } else if n == 13 {
        'd'
    } else if n == 14 {
        'e'
    } else {
        'f'
    }
}

/// The lower-case hex text of a byte sequence, two digits per byte.
pub open spec fn hex_of(b: Seq<u8>) -> Seq<char>
    decreases b.len(),
{
    if b.len() == 0 {
        Seq::empty()
    } else {
        seq![nibble_char(b.first() as nat / 16), nibble_char(b.first() as nat % 16)]
            + hex_of(b.drop_first())
    }
}

/// One nibble as its lower-case hex digit text.
fn nibble_str(n: u8) -> (r: &'static str)
    requires
        n < 16,
    ensures
        r@ == seq![nibble_char(n as nat)],
{
    proof {
        reveal_strlit("0");
        reveal_strlit("1");
        reveal_strlit("2");
        reveal_strlit("3");
        reveal_strlit("4");
        reveal_strlit("5");
        reveal_strlit("6");
        reveal_strlit("7");
        reveal_strlit("8");
        reveal_strlit("9");
        reveal_strlit("a");
        reveal_strlit("b");
        reveal_strlit("c");
        reveal_strlit("d");
        reveal_strlit("e");
        reveal_strlit("f");
    }
    if n == 0 {
        "0"
    } else if n == 1 {
        "1"
    } else if n == 2 {
        "2"
    } else if n == 3 {
        "3"
    } else if n == 4 {
        "4"
    } else if n == 5 {
        "5"
    } else if n == 6 {
        "6"
    } else if n == 7 {
        "7"
    } else if n == 8 {
        "8"
    } else if n == 9 {
        "9"
    } else if n == 10 {
        "a"
    } else if n == 11 {
        "b"
    } else if n == 12 {
        "c"
    } else if n == 13 {
        "d"
    } else if n == 14 {
        "e"
    } else {
        "f"
    }
}

/// Appending a byte appends its two digits to the hex text.
proof fn lemma_hex_of_push(s: Seq<u8>, x: u8)
    ensures
        hex_of(s.push(x)) == hex_of(s) + seq![
            nibble_char(x as nat / 16),
            nibble_char(x as nat % 16),
        ],
    decreases s.len(),
{
    let pair = seq![nibble_char(x as nat / 16), nibble_char(x as nat % 16)];
    if s.len() == 0 {
        assert(s.push(x).first() == x);
        assert(s.push(x).drop_first() =~= s);
        assert(hex_of(s) =~= Seq::<char>::empty());
        assert(hex_of(s.push(x)) =~= hex_of(s) + pair);
    } else {
        lemma_hex_of_push(s.drop_first(), x);
        assert(s.push(x).first() == s.first());
        assert(s.push(x).drop_first() =~= s.drop_first().push(x));
        assert(hex_of(s.push(x)) =~= hex_of(s) + pair);
    }
}

/// The lower-case hex text of a byte slice: each byte becomes two
/// digits, in order.
pub(crate) fn hex_encode(b: &[u8]) -> (r: String)
    ensures
        r@ == hex_of(b@),
{
    let mut out = String::new();
    let mut i: usize = 0;
    proof {
        assert(hex_of(b@.take(0)) =~= Seq::<char>::empty());
    }
    while i < b.len()
        invariant
            0 <= i <= b@.len(),
            out@ == hex_of(b@.take(i as int)),
        decreases b@.len() - i,
    {
        let byte = b[i];
        out.append(nibble_str(byte / 16));
        out.append(nibble_str(byte % 16));
        proof {
            lemma_hex_of_push(b@.take(i as int), b@[i as int]);
            assert(b@.take(i + 1) =~= b@.take(i as int).push(b@[i as int]));
        }
        i = i + 1;
    }
    proof {
        assert(b@.take(b@.len() as int) =~= b@);
    }
    out
}

/// The exec mirror of `nibble_val`; fails on a non-digit.
fn nibble_of_byte(c: u8) -> (r: Option<u8>)
    ensures
        match r {
            Some(v) => is_hex_digit(c) && v as nat == nibble_val(c) && v < 16,
            None => !is_hex_digit(c),
        },
{
    if 0x30 <= c && c <= 0x39 {
        Some(c - 0x30)
    } else if 0x41 <= c && c <= 0x46 {
        Some(c - 0x41 + 10)
    } else if 0x61 <= c && c <= 0x66 {
        Some(c - 0x61 + 10)
    } else {
        None
    }
}

/// Decodes a hex text (already stripped of any `0x`) into bytes.
pub fn decode_hex_bytes(s: &[u8]) -> (r: Result<Vec<u8>, Error>)
    ensures
        match r {
            Ok(v) => hex_valid(s@) && v@ == hex_bytes(s@),
            Err(e) => !hex_valid(s@) && e == Error::EncodingError,
        },
{
    if s.len() % 2 != 0 {
        return Err(Error::EncodingError);
    }
    let mut out: Vec<u8> = Vec::new();
    let mut i: usize = 0;
    proof {
        assert(s@.skip(0) =~= s@);
    }
    while i < s.len()
        invariant
            i % 2 == 0,
            0 <= i <= s@.len(),
            s@.len() % 2 == 0,
            hex_bytes(s@) == out@ + hex_bytes(s@.skip(i as int)),
            forall|j: int| 0 <= j < i ==> is_hex_digit(#[trigger] s@[j]),
        decreases s@.len() - i,
    {
        let hi = match nibble_of_byte(s[i]) {
            Some(v) => v,
            None => {
                return Err(Error::EncodingError);
            },
        };
        let lo = match nibble_of_byte(s[i + 1]) {
            Some(v) => v,
            None => {
                return Err(Error::EncodingError);
            },
        };
        out.push(16 * hi + lo);
        proof {
            let t = s@.skip(i as int);
            assert(t[0] == s@[i as int] && t[1] == s@[i as int + 1]);
            assert(t.skip(2) =~= s@.skip(i + 2));
        }
        i = i + 2;
    }
    proof {
        assert(s@.skip(0) =~= s@);
        assert(hex_bytes(s@.skip(i as int)) =~= Seq::<u8>::empty());
        assert(out@ =~= hex_bytes(s@));
    }
    Ok(out)
}

/// Decodes a storage or event string: an optional `0x`, then hex digits.
pub fn hexstr_to_vec(s: &str) -> (r: Result<Vec<u8>, Error>)
    ensures
        match r {
            Ok(v) => hex_valid(strip_0x(s.spec_bytes())) && v@ == hex_bytes(
                strip_0x(s.spec_bytes()),
            ),
            Err(e) => !hex_valid(strip_0x(s.spec_bytes())) && e == Error::EncodingError,
        },
{
    let b = s.as_bytes();
    if b.len() >= 2 && b[0] == 0x30 && b[1] == 0x78 {
        let (_, tail) = b.split_at(2);
        proof {
            assert(tail@ =~= strip_0x(s.spec_bytes()));
        }
        decode_hex_bytes(tail)
    } else {
        decode_hex_bytes(b)
    }
}

/// The UTF-8 bytes of a string value, the form in which the library reads
/// hex texts.
pub open spec fn str_bytes(s: Seq<char>) -> Seq<u8> {
    vstd::utf8::encode_utf8(s)
}

/// Reads a ledger storage value as a little-endian `u64`, as the registry
/// reads the enclave count: the hex text must denote exactly eight bytes.
pub fn hexstr_to_u64(hexstr: String) -> (r: u64)
    requires
        hex_valid(strip_0x(str_bytes(hexstr@))),
        hex_bytes(strip_0x(str_bytes(hexstr@))).len() == 8,
    ensures
        r as nat == le_value(hex_bytes(strip_0x(str_bytes(hexstr@)))),
{
    let v = match hexstr_to_vec(hexstr.as_str()) {
        Ok(v) => v,
        Err(_) => {
            proof {
                assert(false);
            }
            Vec::new()
        },
    };
    crate::codec::le_bytes_to_u64(v.as_slice())
}

/// Reads a ledger storage value as a little-endian `u128`, the width of a
/// balance or nonce: the hex text must denote at most sixteen bytes.
pub fn hexstr_to_u128(hexstr: &str) -> (r: Result<u128, Error>)
    ensures
        match r {
            Ok(v) => {
                &&& hex_valid(strip_0x(hexstr.spec_bytes()))
                &&& hex_bytes(strip_0x(hexstr.spec_bytes())).len() <= 16
                &&& v as nat == le_value(hex_bytes(strip_0x(hexstr.spec_bytes())))
            },
            Err(e) => {
                &&& !hex_valid(strip_0x(hexstr.spec_bytes())) || hex_bytes(
                    strip_0x(hexstr.spec_bytes()),
                ).len() > 16
                &&& e == Error::EncodingError
            },
        },
{
    let v = hexstr_to_vec(hexstr)?;
    if v.len() > 16 {
        return Err(Error::EncodingError);
    }
    Ok(crate::codec::le_bytes_to_u128(v.as_slice()))
}

} // verus!
