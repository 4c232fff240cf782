//! Reading account identities from their checked text form: base58 text
//! carrying a version byte, the 32-byte public key, and a two-byte
//! checksum over a fixed preamble.

use vstd::prelude::*;
use vstd::string::StringSliceAdditionalSpecFns;
use crate::Error;
use crate::hashing::blake2b_of;
use crate::model::push_bytes;
use crate::request::base58_decoded;

verus! {

/// The version byte of the generic account text format.
pub const ACCOUNT_VERSION: u8 = 42;

/// The checksum preamble of the account text format: the ASCII text
/// `SS58PRE`.
pub open spec fn spec_checksum_preamble() -> Seq<u8> {
    seq![83u8, 83u8, 53u8, 56u8, 80u8, 82u8, 69u8]
}

/// The checksum preamble as bytes.
pub fn checksum_preamble() -> (r: Vec<u8>)
    ensures
        r@ == spec_checksum_preamble(),
{
    let mut v: Vec<u8> = Vec::new();
    v.push(83u8);
    v.push(83u8);
    v.push(53u8);
    v.push(56u8);
    v.push(80u8);
    v.push(82u8);
    v.push(69u8);
    proof {
        assert(v@ =~= spec_checksum_preamble());
    }
    v
}

/// Whether decoded account text bytes are a well-formed account: 35
/// bytes — version, key, checksum — with the version this chain uses and
/// a checksum that is the head of the preamble-salted hash of what it
/// covers.
pub open spec fn account_text_valid(v: Seq<u8>) -> bool {
    &&& v.len() == 35
    &&& v[0] == ACCOUNT_VERSION
    &&& v.skip(33) == blake2b_of(spec_checksum_preamble() + v.take(33)).take(2)
}

/// Reads an account's public key from its checked text form.  The text
/// must fit the decoder's buffer, decode as base58, carry this chain's
/// version byte, and check out against its checksum; anything else is
/// rejected, never aborted on.
pub fn accountid_from_text(s: &str) -> (r: Result<Vec<u8>, Error>)
    ensures
        match r {
            Ok(key) => {
                &&& base58_decoded(s@) matches Some(v) && account_text_valid(v) && key@
                    == v.subrange(1, 33)
                &&& key@.len() == 32
            },
            Err(e) => {
                &&& e == Error::EncodingError
                &&& {
                    ||| s.spec_bytes().len() > 132
                    ||| base58_decoded(s@) is None
                    ||| base58_decoded(s@) matches Some(v) && !account_text_valid(v)
                }
            },
        },
{
    if s.as_bytes().len() > crate::request::BASE58_MAX_TEXT {
        return Err(Error::EncodingError);
    }
    let v = crate::request::base58_decode(s)?;
    if v.len() != 35 {
        return Err(Error::EncodingError);
    }
    if v[0] != ACCOUNT_VERSION {
        return Err(Error::EncodingError);
    }
    let mut salted = checksum_preamble();
    let (body, checksum) = v.as_slice().split_at(33);
    push_bytes(&mut salted, body);
    proof {
        assert(salted@ =~= spec_checksum_preamble() + v@.take(33));
    }
    let digest = crate::hashing::blake2b_512(salted.as_slice());
    let (digest_head, _) = digest.as_slice().split_at(2);
    if !crate::model::bytes_eq(digest_head, checksum) {
        proof {
            assert(digest_head@ =~= blake2b_of(spec_checksum_preamble() + v@.take(33)).take(2));
            assert(checksum@ =~= v@.skip(33));
        }
        return Err(Error::EncodingError);
    }
    let mut key: Vec<u8> = Vec::new();
    let (_, tail) = body.split_at(1);
    push_bytes(&mut key, tail);
    proof {
        assert(digest_head@ =~= blake2b_of(spec_checksum_preamble() + v@.take(33)).take(2));
        assert(checksum@ =~= v@.skip(33));
        assert(key@ =~= v@.subrange(1, 33));
    }
    Ok(key)
}

} // verus!
