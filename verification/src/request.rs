//! The wire entity the ledger stores for a call: a shard identifier and
//! the shielded ciphertext, encoded as 32 fixed bytes followed by a
//! length-prefixed byte sequence in the ledger's native codec.

use vstd::prelude::*;
use vstd::string::StringSliceAdditionalSpecFns;
use crate::Error;
use crate::codec::{compact_bytes, compact_max, encode_compact, lemma_compact_round_trip,
    parse_compact, read_compact};
use crate::model::{ShardIdentifier, is_bytes32, push_bytes};
use crate::shielding::{ShieldingKey, encrypt_shielded};
use crate::signing::TrustedCallSigned;

verus! {

/// A name for what base58 text decodes to, if anything: the result of the
/// base58 crate's decoder on a given string.
pub uninterp spec fn base58_decoded(s: Seq<char>) -> Option<Seq<u8>>;

/// The longest base58 text the decoder's fixed buffer holds: beyond it
/// the decoder is never called.
pub const BASE58_MAX_TEXT: usize = 132;

/// Relies on base58::FromBase58::from_base58: the result is a function of
/// the string alone; a string with a character outside the base58
/// alphabet, or denoting more than its buffer holds, is rejected.  The
/// decoder works over a fixed 132-byte buffer and can panic past it, so
/// longer texts are excluded here and rejected by the callers.
#[verifier::external_body]
pub(crate) fn base58_decode(s: &str) -> (r: Result<Vec<u8>, Error>)
    requires
        s.spec_bytes().len() <= 132,
    ensures
        match r {
            Ok(v) => base58_decoded(s@) == Some(v@),
            Err(e) => base58_decoded(s@) is None && e == Error::EncodingError,
        },
{
    match base58::FromBase58::from_base58(s) {
        Ok(v) => Ok(v),
        Err(_) => Err(Error::EncodingError),
    }
}

/// The only payload the public ledger ever stores for a call: the target
/// shard and the shielded ciphertext.
#[derive(Debug)]
pub struct Request {
    pub shard: ShardIdentifier,
    pub ciphertext: Vec<u8>,
}

/// The wire encoding of a request: the shard's 32 bytes, then the
/// ciphertext behind a compact length prefix.
pub open spec fn request_bytes(shard: Seq<u8>, ciphertext: Seq<u8>) -> Seq<u8> {
    shard + compact_bytes(ciphertext.len()) + ciphertext
}

/// What request bytes decode to: the shard and ciphertext they encode, or
/// nothing when they are not a whole well-formed request.
pub open spec fn spec_decode_request(b: Seq<u8>) -> Option<(Seq<u8>, Seq<u8>)> {
    if b.len() < 32 {
        None
    } else {
        match parse_compact(b.skip(32)) {
            Some((n, k)) => if b.skip(32).len() == k + n {
                Some((b.take(32), b.skip(32).skip(k as int)))
            } else {
                None
            },
            None => None,
        }
    }
}

impl Request {
    /// Whether the request is well-formed: a 32-byte shard and a
    /// ciphertext the length prefix can carry.
    pub open spec fn wf(&self) -> bool {
        self.shard.wf() && self.ciphertext@.len() < compact_max()
    }

    /// The wire encoding.  It is a function of the shard and ciphertext
    /// alone, so identical requests encode to identical bytes.
    pub fn encode(&self) -> (r: Vec<u8>)
        requires
            self.wf(),
        ensures
            r@ == request_bytes(self.shard.bytes@, self.ciphertext@),
    {
        let mut out: Vec<u8> = Vec::new();
        push_bytes(&mut out, self.shard.bytes.as_slice());
        encode_compact(&mut out, self.ciphertext.len());
        push_bytes(&mut out, self.ciphertext.as_slice());
        proof {
            assert(out@ =~= request_bytes(self.shard.bytes@, self.ciphertext@));
        }
        out
    }

    /// Decodes wire bytes back into a request; bytes that are not a whole
    /// well-formed request are rejected.
    pub fn decode(b: &[u8]) -> (r: Result<Request, Error>)
        ensures
            match r {
                Ok(req) => {
                    &&& spec_decode_request(b@) == Some((req.shard.bytes@, req.ciphertext@))
                    &&& req.wf()
                },
                Err(e) => spec_decode_request(b@) is None && e == Error::EncodingError,
            },
    {
        if b.len() < 32 {
            return Err(Error::EncodingError);
        }
        let (head, rest) = b.split_at(32);
        let shard = match ShardIdentifier::from_slice(head) {
            Ok(s) => s,
            Err(e) => {
                proof {
                    assert(false);
                }
                return Err(e);
            },
        };
        match read_compact(rest, 0) {
            Some((n, k)) => {
                if rest.len() - k == n {
                    let mut ct: Vec<u8> = Vec::new();
                    let (_, tail) = rest.split_at(k);
                    push_bytes(&mut ct, tail);
                    proof {
                        assert(rest@.skip(0) =~= rest@);
                        assert(b@.skip(32) =~= rest@);
                        assert(b@.take(32) =~= head@);
                        assert(ct@ =~= rest@.skip(k as int));
                    }
                    Ok(Request { shard, ciphertext: ct })
                } else {
                    proof {
                        assert(rest@.skip(0) =~= rest@);
                        assert(b@.skip(32) =~= rest@);
                    }
                    Err(Error::EncodingError)
                }
            },
            None => {
                proof {
                    assert(rest@.skip(0) =~= rest@);
                    assert(b@.skip(32) =~= rest@);
                }
                Err(Error::EncodingError)
            },
        }
    }
}

/// Encoding a request and decoding the bytes gives the request back:
/// the wire format loses nothing.
pub proof fn lemma_request_round_trip(shard: Seq<u8>, ciphertext: Seq<u8>)
    requires
        is_bytes32(shard),
        ciphertext.len() < compact_max(),
    ensures
        spec_decode_request(request_bytes(shard, ciphertext)) == Some((shard, ciphertext)),
{
    let b = request_bytes(shard, ciphertext);
    lemma_compact_round_trip(ciphertext.len(), ciphertext);
    let k = compact_bytes(ciphertext.len()).len();
    assert(b.skip(32) =~= compact_bytes(ciphertext.len()) + ciphertext);
    assert(b.take(32) =~= shard);
    assert(b.skip(32).skip(k as int) =~= ciphertext);
}

/// The wire encoding is a pure function of the shard and ciphertext, and
/// of nothing else: equal fields give byte-identical encodings.
pub proof fn lemma_request_encoding_deterministic(
    shard1: Seq<u8>,
    ciphertext1: Seq<u8>,
    shard2: Seq<u8>,
    ciphertext2: Seq<u8>,
)
    requires
        shard1 == shard2,
        ciphertext1 == ciphertext2,
    ensures
        request_bytes(shard1, ciphertext1) == request_bytes(shard2, ciphertext2),
{
}

/// Distinct requests have distinct encodings: the wire format is
/// injective on well-formed requests.
pub proof fn lemma_request_encoding_injective(
    shard1: Seq<u8>,
    ciphertext1: Seq<u8>,
    shard2: Seq<u8>,
    ciphertext2: Seq<u8>,
)
    requires
        is_bytes32(shard1),
        is_bytes32(shard2),
        ciphertext1.len() < compact_max(),
        ciphertext2.len() < compact_max(),
        request_bytes(shard1, ciphertext1) == request_bytes(shard2, ciphertext2),
    ensures
        shard1 == shard2,
        ciphertext1 == ciphertext2,
{
    lemma_request_round_trip(shard1, ciphertext1);
    lemma_request_round_trip(shard2, ciphertext2);
}

/// Reads the worker identity and shard from their base58 texts, as the
/// caller supplies them.  The shard defaults to the identity measurement
/// when none is named; malformed, overlong or wrongly sized texts are
/// rejected, never aborted on.
pub fn get_identifiers(mrenclave_b58: &str, shard_b58: Option<&str>) -> (r: Result<
    (Vec<u8>, ShardIdentifier),
    Error,
>)
    ensures
        match r {
            Ok((mrenclave, shard)) => {
                &&& base58_decoded(mrenclave_b58@) == Some(mrenclave@)
                &&& is_bytes32(mrenclave@)
                &&& shard.wf()
                &&& match shard_b58 {
                    Some(s) => base58_decoded(s@) == Some(shard.bytes@),
                    None => shard.bytes@ == mrenclave@,
                }
            },
            Err(e) => {
                &&& e == Error::EncodingError
                &&& {
                    ||| mrenclave_b58.spec_bytes().len() > 132
                    ||| base58_decoded(mrenclave_b58@) is None
                    ||| base58_decoded(mrenclave_b58@) matches Some(m) && m.len() != 32
                    ||| shard_b58 matches Some(s) && (s.spec_bytes().len() > 132
                        || base58_decoded(s@) is None || (base58_decoded(s@) matches Some(v)
                        && v.len() != 32))
                }
            },
        },
{
    if mrenclave_b58.as_bytes().len() > BASE58_MAX_TEXT {
        return Err(Error::EncodingError);
    }
    let mrenclave = base58_decode(mrenclave_b58)?;
    if mrenclave.len() != 32 {
        return Err(Error::EncodingError);
    }
    let shard = match shard_b58 {
        Some(s) => {
            if s.as_bytes().len() > BASE58_MAX_TEXT {
                return Err(Error::EncodingError);
            }
            let decoded = base58_decode(s)?;
            ShardIdentifier::from_slice(decoded.as_slice())?
        },
        None => ShardIdentifier::from_slice(mrenclave.as_slice())?,
    };
    Ok((mrenclave, shard))
}

/// The compute half of dispatching a signed call: encode it, shield the
/// encoding under the worker's key, and wrap the ciphertext for the
/// target shard.  `CapacityExceeded` comes exactly when the canonical
/// encoding is longer than the key allows; `EncodingError` exactly when
/// the scheme rejects the key; otherwise the request is produced.
pub fn prepare_request(call: &TrustedCallSigned, key: &ShieldingKey, shard: ShardIdentifier) -> (r:
    Result<Request, Error>)
    requires
        key.wf(),
        shard.wf(),
    ensures
        match r {
            Ok(req) => {
                &&& req.shard.bytes@ == shard.bytes@
                &&& req.ciphertext@.len() == key.modulus@.len()
                &&& req.wf()
                &&& call.spec_signed_bytes().len() <= key.spec_capacity()
            },
            Err(e) => e == Error::CapacityExceeded || e == Error::EncodingError,
        },
        (r matches Err(e) && e == Error::CapacityExceeded) <==> call.spec_signed_bytes().len()
            > key.spec_capacity(),
        (r matches Err(e) && e == Error::EncodingError) <==> (call.spec_signed_bytes().len()
            <= key.spec_capacity() && !crate::shielding::rsa_key_accepted(
            key.modulus@,
            key.exponent@,
        )),
        call.spec_signed_bytes().len() <= key.spec_capacity()
            && crate::shielding::rsa_key_accepted(key.modulus@, key.exponent@) ==> r is Ok,
{
    let plaintext = call.encode();
    let ciphertext = encrypt_shielded(plaintext.as_slice(), key)?;
    Ok(Request { shard, ciphertext })
}

} // verus!
