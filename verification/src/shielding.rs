//! The shielding encryptor: plaintext-encoded operations are encrypted
//! under the worker's published public key before anything leaves the
//! caller.  The key is held as the plain values this layer reads — the
//! modulus and public exponent bytes — and its plaintext capacity is what
//! the encryptor's contract turns on.

use vstd::prelude::*;
use crate::Error;

verus! {

/// A worker's published shielding key: an RSA public key as big-endian
/// modulus and exponent bytes.  The matching private key never leaves the
/// sealed boundary, so this layer only ever encrypts.
#[derive(Debug)]
pub struct ShieldingKey {
    pub modulus: Vec<u8>,
    pub exponent: Vec<u8>,
}

impl ShieldingKey {
    /// Whether the key is one this layer can encrypt under: a modulus
    /// with no leading zero byte, long enough to leave room for padding
    /// and within the scheme's 4096-bit bound, and a nonempty exponent.
    pub open spec fn wf(&self) -> bool {
        &&& 12 <= self.modulus@.len() <= 512
        &&& self.modulus@.len() > 0 && self.modulus@[0] != 0
        &&& self.exponent@.len() >= 1
    }

    /// The longest plaintext the key can shield: the modulus length less
    /// the scheme's eleven bytes of padding.
    pub open spec fn spec_capacity(&self) -> int {
        self.modulus@.len() - 11
    }

    /// Builds a key from its raw components, rejecting anything the
    /// encryptor could not use.
    pub fn new(modulus: Vec<u8>, exponent: Vec<u8>) -> (r: Result<ShieldingKey, Error>)
        ensures
            match r {
                Ok(k) => {
                    &&& k.modulus@ == modulus@
                    &&& k.exponent@ == exponent@
                    &&& k.wf()
                },
                Err(e) => {
                    &&& e == Error::EncodingError
                    &&& !(ShieldingKey { modulus, exponent }).wf()
                },
            },
    {
        if modulus.len() < 12 || modulus.len() > 512 || exponent.len() < 1 {
            return Err(Error::EncodingError);
        }
        if modulus[0] == 0 {
            return Err(Error::EncodingError);
        }
        Ok(ShieldingKey { modulus, exponent })
    }

    /// The plaintext capacity in bytes.
    pub fn capacity(&self) -> (r: usize)
        requires
            self.wf(),
        ensures
            r == self.spec_capacity(),
    {
        self.modulus.len() - 11
    }
}

/// A name for the scheme's acceptance of a public key: what the rsa
/// crate's public-key well-formedness check says of big-endian modulus
/// and exponent bytes.  Acceptance is a function of those bytes alone.
pub uninterp spec fn rsa_key_accepted(modulus: Seq<u8>, exponent: Seq<u8>) -> bool;

/// Relies on rsa::RsaPublicKey::encrypt with PKCS#1 v1.5 padding.  With
/// the plaintext within the padding bound, the only failing path is the
/// key check (`check_public`), a function of modulus and exponent alone;
/// a ciphertext is exactly as long as the modulus, since the source pads
/// the encrypted integer to the key's byte size.  The padding is
/// randomized, so nothing is said of the ciphertext's bytes.
#[verifier::external_body]
fn rsa_encrypt_pkcs1v15(modulus: &[u8], exponent: &[u8], plaintext: &[u8]) -> (r: Result<
    Vec<u8>,
    (),
>)
    requires
        modulus@.len() > 0 && modulus@[0] != 0,
        plaintext@.len() + 11 <= modulus@.len(),
    ensures
        r is Ok <==> rsa_key_accepted(modulus@, exponent@),
        r matches Ok(ct) ==> ct@.len() == modulus@.len(),
{
    let n = rsa::BigUint::from_bytes_be(modulus);
    let e = rsa::BigUint::from_bytes_be(exponent);
    let key = rsa::RsaPublicKey::new_unchecked(n, e);
    let mut rng = rand::thread_rng();
    key.encrypt(&mut rng, rsa::Pkcs1v15Encrypt, plaintext).map_err(|_| ())
}

/// Encrypts a plaintext-encoded operation under the worker's shielding
/// key.  A plaintext over the key's capacity is rejected as
/// `CapacityExceeded` — exactly then; within capacity, a key the scheme
/// rejects is `EncodingError` — exactly then; otherwise a ciphertext is
/// produced, as long as the key's modulus.
pub fn encrypt_shielded(plaintext: &[u8], key: &ShieldingKey) -> (r: Result<Vec<u8>, Error>)
    requires
        key.wf(),
    ensures
        (r matches Err(e) && e == Error::CapacityExceeded) <==> plaintext@.len()
            > key.spec_capacity(),
        (r matches Err(e) && e == Error::EncodingError) <==> (plaintext@.len()
            <= key.spec_capacity() && !rsa_key_accepted(key.modulus@, key.exponent@)),
        r matches Err(e) ==> e == Error::CapacityExceeded || e == Error::EncodingError,
        plaintext@.len() <= key.spec_capacity() && rsa_key_accepted(key.modulus@, key.exponent@)
            ==> r is Ok,
        r matches Ok(ct) ==> ct@.len() == key.modulus@.len(),
{
    if plaintext.len() > key.capacity() {
        return Err(Error::CapacityExceeded);
    }
    match rsa_encrypt_pkcs1v15(key.modulus.as_slice(), key.exponent.as_slice(), plaintext) {
        Ok(ct) => Ok(ct),
        Err(_) => Err(Error::EncodingError),
    }
}

} // verus!
