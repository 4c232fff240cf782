//! Interpreting what the ledger and the worker hand back: the fixed
//! prefix of a query response as an optional little-endian value, the
//! registry's worker count, and the latest state hash.

use vstd::prelude::*;
use vstd::string::StringSliceAdditionalSpecFns;
use crate::Error;
use crate::codec::{le_bytes_to_u128, le_bytes_to_u64, le_value, lemma_le_value_bound,
    lemma_pow256_le, lemma_pow256_values, parse_compact, read_compact};
use crate::hexcodec::{hex_bytes, hex_valid, hexstr_to_vec, strip_0x};
use crate::model::{bytes_eq, push_bytes};

verus! {

/// How many leading bytes of a query response are interpreted: an option
/// tag, a length prefix, and up to sixteen value bytes.
pub const GETTER_WINDOW: usize = 18;

/// What a query response's fixed-prefix window decodes to: `None` when
/// the window is not a well-formed optional value, `Some(None)` when the
/// worker reports no value, `Some(Some(v))` for a present value read as a
/// little-endian integer.
pub open spec fn spec_getter_value(b: Seq<u8>) -> Option<Option<nat>> {
    if b.len() < 18 {
        None
    } else {
        let w = b.take(18);
        if w[0] == 0 {
            Some(None)
        } else if w[0] != 1 {
            None
        } else {
            match parse_compact(w.skip(1)) {
                Some((n, k)) => if 1 + k + n <= 18 {
                    Some(Some(le_value(w.skip(1 + k as int).take(n as int))))
                } else {
                    None
                },
                None => None,
            }
        }
    }
}

/// Interprets a worker's query response by its fixed-prefix window.  A
/// window that does not decode as a well-formed optional value is a
/// `ValueDecodeError` — a typed result, never an abort.  A present value
/// is returned as the integer its little-endian bytes denote.
pub fn interpret_getter_response(b: &[u8]) -> (r: Result<Option<u128>, Error>)
    ensures
        match r {
            Ok(v) => spec_getter_value(b@) == Some(
                match v {
                    Some(x) => Some(x as nat),
                    None => None::<nat>,
                },
            ),
            Err(e) => spec_getter_value(b@) is None && e == Error::ValueDecodeError,
        },
{
    if b.len() < GETTER_WINDOW {
        return Err(Error::ValueDecodeError);
    }
    let mut w: Vec<u8> = Vec::new();
    let (head, _) = b.split_at(GETTER_WINDOW);
    push_bytes(&mut w, head);
    proof {
        assert(w@ =~= b@.take(18));
    }
    if w[0] == 0 {
        return Ok(None);
    }
    if w[0] != 1 {
        return Err(Error::ValueDecodeError);
    }
    let (n, after_len) = match read_compact(w.as_slice(), 1) {
        Some(p) => p,
        None => {
            return Err(Error::ValueDecodeError);
        },
    };
    proof {
        assert(w@.skip(1) == b@.take(18).skip(1));
    }
    if n > GETTER_WINDOW - after_len {
        return Err(Error::ValueDecodeError);
    }
    let ghost k = (after_len - 1) as nat;
    let (_, tail) = w.as_slice().split_at(after_len);
    let (value_bytes, _) = tail.split_at(n);
    proof {
        assert(value_bytes@ =~= b@.take(18).skip(1 + k as int).take(n as int));
        lemma_le_value_bound(value_bytes@);
        lemma_pow256_le(value_bytes@.len(), 16);
        lemma_pow256_values();
    }
    let value = le_bytes_to_u128(value_bytes);
    Ok(Some(value))
}

/// Whether a string is the ledger's `null`, the answer for an absent
/// storage value.
pub open spec fn is_null_str(s: Seq<u8>) -> bool {
    s =~= seq![110u8, 117u8, 108u8, 108u8]
}

/// Reads the registry's worker count from its storage answer: `null`
/// means no workers yet, anything else must be eight little-endian bytes
/// behind hex.
pub fn interpret_worker_amount(result_str: &str) -> (r: Result<u64, Error>)
    ensures
        match r {
            Ok(v) => {
                &&& is_null_str(result_str.spec_bytes()) ==> v == 0
                &&& !is_null_str(result_str.spec_bytes()) ==> {
                    &&& hex_valid(strip_0x(result_str.spec_bytes()))
                    &&& hex_bytes(strip_0x(result_str.spec_bytes())).len() == 8
                    &&& v as nat == le_value(hex_bytes(strip_0x(result_str.spec_bytes())))
                }
            },
            Err(e) => {
                &&& !is_null_str(result_str.spec_bytes())
                &&& !hex_valid(strip_0x(result_str.spec_bytes())) || hex_bytes(
                    strip_0x(result_str.spec_bytes()),
                ).len() != 8
                &&& e == Error::EncodingError
            },
        },
{
    let null_text: [u8; 4] = [110u8, 117u8, 108u8, 108u8];
    if bytes_eq(result_str.as_bytes(), null_text.as_slice()) {
        proof {
            assert(is_null_str(result_str.spec_bytes()));
        }
        return Ok(0);
    }
    let v = hexstr_to_vec(result_str)?;
    if v.len() != 8 {
        return Err(Error::EncodingError);
    }
    Ok(le_bytes_to_u64(v.as_slice()))
}

/// Reads the latest state hash from its storage bytes: a single byte
/// means no state update has happened yet; otherwise the value must be
/// the 46-byte content identifier, returned whole.
pub fn interpret_latest_state(b: &[u8]) -> (r: Result<Option<Vec<u8>>, Error>)
    ensures
        match r {
            Ok(v) => match v {
                Some(h) => b@.len() == 46 && h@ == b@,
                None => b@.len() == 1,
            },
            Err(e) => b@.len() != 1 && b@.len() != 46 && e == Error::EncodingError,
        },
{
    if b.len() == 1 {
        return Ok(None);
    }
    if b.len() != 46 {
        return Err(Error::EncodingError);
    }
    let mut h: Vec<u8> = Vec::new();
    push_bytes(&mut h, b);
    proof {
        assert(h@ =~= b@);
    }
    Ok(Some(h))
}

} // verus!
