//! The two hash functions the pipeline leans on: the fixed-salt,
//! zero-keyed hash a caller computes over the plaintext it shields, for
//! diagnostic correlation, and the checksum hash of the account text
//! format.

use vstd::prelude::*;

verus! {

/// A name for the 32-byte keyed hash: the digest is a function of the
/// key and the data alone.
pub uninterp spec fn blake2s_of(key: Seq<u8>, data: Seq<u8>) -> Seq<u8>;

/// A name for the 64-byte unkeyed hash: the digest is a function of the
/// data alone.
pub uninterp spec fn blake2b_of(data: Seq<u8>) -> Seq<u8>;

/// Relies on blake2_rfc::blake2s::blake2s with a 32-byte output: the
/// digest depends on the key and data alone and is 32 bytes long.  A key
/// over 32 bytes would be refused by the source, so it is excluded here.
#[verifier::external_body]
pub(crate) fn blake2s_256(key: &[u8], data: &[u8]) -> (r: Vec<u8>)
    requires
        key@.len() <= 32,
    ensures
        r@ == blake2s_of(key@, data@),
        r@.len() == 32,
{
    blake2_rfc::blake2s::blake2s(32, key, data).as_bytes().to_vec()
}

/// Relies on blake2_rfc::blake2b::blake2b with a 64-byte output and no
/// key: the digest depends on the data alone and is 64 bytes long.
#[verifier::external_body]
pub(crate) fn blake2b_512(data: &[u8]) -> (r: Vec<u8>)
    ensures
        r@ == blake2b_of(data@),
        r@.len() == 64,
{
    blake2_rfc::blake2b::blake2b(64, &[], data).as_bytes().to_vec()
}

/// The fixed salt of the diagnostic hash: 32 zero bytes as the key.
pub open spec fn zero_salt() -> Seq<u8> {
    Seq::new(32, |i: int| 0u8)
}

/// The diagnostic hash a caller computes over the original plaintext —
/// the signed operation's canonical encoding — to compare out-of-band
/// against the hash a confirmation event reports.
pub fn expected_call_hash(plaintext: &[u8]) -> (r: Vec<u8>)
    ensures
        r@ == blake2s_of(zero_salt(), plaintext@),
        r@.len() == 32,
{
    let mut key: Vec<u8> = Vec::new();
    let mut i: usize = 0;
    while i < 32
        invariant
            0 <= i <= 32,
            key@ =~= Seq::new(i as nat, |j: int| 0u8),
        decreases 32 - i,
    {
        key.push(0u8);
        i = i + 1;
    }
    proof {
        assert(key@ =~= zero_salt());
    }
    blake2s_256(key.as_slice(), plaintext)
}

/// Whether a reported confirmation hash matches the caller's expected
/// one.  The comparison is diagnostic: a mismatch is logged by the
/// caller, never a failure.
pub fn hashes_match(expected: &[u8], reported: &[u8]) -> (r: bool)
    ensures
        r == (expected@ == reported@),
{
    crate::model::bytes_eq(expected, reported)
}

} // verus!
