//! Signing and verifying trusted operations.  A call's signature binds the
//! call, the nonce, the worker's identity measurement and the shard jointly:
//! the signed payload is the canonical encoding of all of them, and that
//! encoding is proved injective, so substituting any field changes the
//! payload the signature is checked against.

use vstd::prelude::*;
use crate::codec::{le_bytes, lemma_le_bytes_injective, lemma_le_bytes_len, lemma_pow256_values,
    u32_to_le_bytes};
use crate::model::{ShardIdentifier, TrustedCall, TrustedGetter, clone_bytes, is_bytes32,
    push_bytes, trusted_call_bytes, trusted_getter_bytes};

verus! {

/// The public key that the signing scheme derives from a 32-byte seed.
pub uninterp spec fn sr25519_public(seed: Seq<u8>) -> Seq<u8>;

/// What signature verification says of a public key, a signing context, a
/// message and a signature.
pub uninterp spec fn sr25519_verify_ok(
    pk: Seq<u8>,
    ctx: Seq<u8>,
    msg: Seq<u8>,
    sig: Seq<u8>,
) -> bool;

/// Relies on schnorrkel::MiniSecretKey::expand_to_public with the Ed25519
/// expansion: the public key is derived from the seed alone, and is 32
/// bytes.
#[verifier::external_body]
pub fn sr25519_public_key(seed: &[u8]) -> (r: Vec<u8>)
    requires
        seed@.len() == 32,
    ensures
        r@ == sr25519_public(seed@),
        r@.len() == 32,
{
    let mini = schnorrkel::MiniSecretKey::from_bytes(seed).unwrap();
    let public = mini.expand_to_public(schnorrkel::ExpansionMode::Ed25519);
    public.to_bytes().to_vec()
}

/// Relies on schnorrkel::Keypair::sign_simple: the signature is 64 bytes,
/// and the source's verification equation accepts a signature produced by
/// the keypair's own secret key (its `sign_simple_doublecheck` checks
/// exactly that).  The signature bytes themselves are randomized, so
/// nothing else is said of them.
#[verifier::external_body]
pub(crate) fn sr25519_sign(seed: &[u8], ctx: &[u8], msg: &[u8]) -> (r: Vec<u8>)
    requires
        seed@.len() == 32,
    ensures
        r@.len() == 64,
        sr25519_verify_ok(sr25519_public(seed@), ctx@, msg@, r@),
{
    let mini = schnorrkel::MiniSecretKey::from_bytes(seed).unwrap();
    let keypair = mini.expand_to_keypair(schnorrkel::ExpansionMode::Ed25519);
    keypair.sign_simple(ctx, msg).to_bytes().to_vec()
}

/// Relies on schnorrkel::PublicKey::verify_simple: verification is a
/// function of the public key, context, message and signature bytes alone.
/// Bytes that are not a valid key or signature verify as false.
#[verifier::external_body]
pub(crate) fn sr25519_verify(pk: &[u8], ctx: &[u8], msg: &[u8], sig: &[u8]) -> (r: bool)
    ensures
        r == sr25519_verify_ok(pk@, ctx@, msg@, sig@),
{
    let public = match schnorrkel::PublicKey::from_bytes(pk) {
        Ok(p) => p,
        Err(_) => return false,
    };
    let signature = match schnorrkel::Signature::from_bytes(sig) {
        Ok(s) => s,
        Err(_) => return false,
    };
    public.verify_simple(ctx, msg, &signature).is_ok()
}

/// The signing context every operation of this pipeline signs under.
pub open spec fn spec_signing_context() -> Seq<u8> {
    seq![115u8, 117u8, 98u8, 115u8, 116u8, 114u8, 97u8, 116u8, 101u8]
}

/// The signing context as bytes: the ASCII text `substrate`.
pub fn signing_context() -> (r: Vec<u8>)
    ensures
        r@ == spec_signing_context(),
{
    let mut v: Vec<u8> = Vec::new();
    v.push(115u8);
    v.push(117u8);
    v.push(98u8);
    v.push(115u8);
    v.push(116u8);
    v.push(114u8);
    v.push(97u8);
    v.push(116u8);
    v.push(101u8);
    proof {
        assert(v@ =~= spec_signing_context());
    }
    v
}

/// The payload a signed call's signature binds: the call's canonical
/// encoding, the nonce as four little-endian bytes, the identity
/// measurement, the shard.
pub open spec fn call_sign_payload(
    c: TrustedCall,
    nonce: u32,
    mrenclave: Seq<u8>,
    shard: Seq<u8>,
) -> Seq<u8> {
    trusted_call_bytes(c) + le_bytes(nonce as nat, 4) + mrenclave + shard
}

/// A trusted call bound to a nonce, a worker identity and a shard by one
/// signature over their joint canonical encoding.
pub struct TrustedCallSigned {
    pub call: TrustedCall,
    pub nonce: u32,
    pub mrenclave: Vec<u8>,
    pub shard: ShardIdentifier,
    pub signature: Vec<u8>,
}

impl TrustedCallSigned {
    /// Whether the fields are well-formed: accounts and identities 32
    /// bytes, the signature 64.
    pub open spec fn wf(&self) -> bool {
        &&& self.call.wf()
        &&& is_bytes32(self.mrenclave@)
        &&& self.shard.wf()
        &&& self.signature@.len() == 64
    }

    /// The payload this value's signature is checked against.
    pub open spec fn spec_payload(&self) -> Seq<u8> {
        call_sign_payload(self.call, self.nonce, self.mrenclave@, self.shard.bytes@)
    }

    /// The payload bytes, rebuilt from the fields.
    pub fn payload(&self) -> (r: Vec<u8>)
        ensures
            r@ == self.spec_payload(),
    {
        let mut out = self.call.encode();
        let nonce_bytes = u32_to_le_bytes(self.nonce);
        push_bytes(&mut out, nonce_bytes.as_slice());
        push_bytes(&mut out, self.mrenclave.as_slice());
        push_bytes(&mut out, self.shard.bytes.as_slice());
        proof {
            assert(out@ =~= self.spec_payload());
        }
        out
    }

    /// The plaintext the shielding encryptor works on: the signed
    /// payload followed by the signature, so a verifier behind the
    /// boundary can rebuild and check the same bytes.
    pub open spec fn spec_signed_bytes(&self) -> Seq<u8> {
        self.spec_payload() + self.signature@
    }

    /// The signed call's canonical encoding.
    pub fn encode(&self) -> (r: Vec<u8>)
        ensures
            r@ == self.spec_signed_bytes(),
    {
        let mut out = self.payload();
        push_bytes(&mut out, self.signature.as_slice());
        out
    }

    /// Checks the signature under the public key the call itself names.
    /// True exactly when the scheme accepts the signature over the joint
    /// payload for that key.
    pub fn verify_signature(&self) -> (r: bool)
        ensures
            r == sr25519_verify_ok(
                self.call.spec_account(),
                spec_signing_context(),
                self.spec_payload(),
                self.signature@,
            ),
    {
        let ctx = signing_context();
        let payload = self.payload();
        sr25519_verify(
            self.call.account().as_slice(),
            ctx.as_slice(),
            payload.as_slice(),
            self.signature.as_slice(),
        )
    }
}

impl TrustedCall {
    /// Signs the call, binding it to `nonce`, `mrenclave` and `shard`.
    /// The result carries the inputs unchanged and a signature the scheme
    /// accepts under the signer's public key.
    pub fn sign(
        self,
        seed: &[u8],
        nonce: u32,
        mrenclave: &Vec<u8>,
        shard: &ShardIdentifier,
    ) -> (r: TrustedCallSigned)
        requires
            seed@.len() == 32,
        ensures
            r.call == self,
            r.nonce == nonce,
            r.mrenclave@ == mrenclave@,
            r.shard.bytes@ == shard.bytes@,
            r.signature@.len() == 64,
            sr25519_verify_ok(
                sr25519_public(seed@),
                spec_signing_context(),
                r.spec_payload(),
                r.signature@,
            ),
    {
        let ctx = signing_context();
        let mut payload = self.encode();
        let nonce_bytes = u32_to_le_bytes(nonce);
        push_bytes(&mut payload, nonce_bytes.as_slice());
        push_bytes(&mut payload, mrenclave.as_slice());
        push_bytes(&mut payload, shard.bytes.as_slice());
        let signature = sr25519_sign(seed, ctx.as_slice(), payload.as_slice());
        let signed = TrustedCallSigned {
            call: self,
            nonce,
            mrenclave: clone_bytes(mrenclave),
            shard: shard.duplicate(),
            signature,
        };
        proof {
            assert(payload@ =~= signed.spec_payload());
        }
        signed
    }
}

/// A trusted getter bound to its querying key by a signature over the
/// getter's canonical encoding.
pub struct TrustedGetterSigned {
    pub getter: TrustedGetter,
    pub signature: Vec<u8>,
}

impl TrustedGetterSigned {
    /// Whether the fields are well-formed.
    pub open spec fn wf(&self) -> bool {
        self.getter.wf() && self.signature@.len() == 64
    }

    /// Checks the signature under the public key the getter itself names.
    pub fn verify_signature(&self) -> (r: bool)
        ensures
            r == sr25519_verify_ok(
                self.getter.spec_account(),
                spec_signing_context(),
                trusted_getter_bytes(self.getter),
                self.signature@,
            ),
    {
        let ctx = signing_context();
        let payload = self.getter.encode();
        sr25519_verify(
            self.getter.account().as_slice(),
            ctx.as_slice(),
            payload.as_slice(),
            self.signature.as_slice(),
        )
    }
}

impl TrustedGetter {
    /// Signs the getter.  Queries carry no nonce: they are not
    /// replay-sensitive the way calls are.
    pub fn sign(self, seed: &[u8]) -> (r: TrustedGetterSigned)
        requires
            seed@.len() == 32,
        ensures
            r.getter == self,
            r.signature@.len() == 64,
            sr25519_verify_ok(
                sr25519_public(seed@),
                spec_signing_context(),
                trusted_getter_bytes(self),
                r.signature@,
            ),
    {
        let ctx = signing_context();
        let payload = self.encode();
        let signature = sr25519_sign(seed, ctx.as_slice(), payload.as_slice());
        TrustedGetterSigned { getter: self, signature }
    }
}

/// The unit the pipeline dispatches: a signed call or a signed getter.
#[allow(non_camel_case_types)]
pub enum TrustedOperationSigned {
    call(TrustedCallSigned),
    get(TrustedGetterSigned),
}

/// A call signed under the key its own first field names verifies: the
/// predicate `sign` establishes is the one `verify_signature` reports,
/// as soon as the call's account is the signer's public key.  Under any
/// other key nothing is promised — the scheme alone decides there.
pub proof fn lemma_sign_then_verify(signed: TrustedCallSigned, seed: Seq<u8>)
    requires
        signed.call.spec_account() == sr25519_public(seed),
        sr25519_verify_ok(
            sr25519_public(seed),
            spec_signing_context(),
            signed.spec_payload(),
            signed.signature@,
        ),
    ensures
        sr25519_verify_ok(
            signed.call.spec_account(),
            spec_signing_context(),
            signed.spec_payload(),
            signed.signature@,
        ),
{
}

/// Whether two trusted calls agree variant by variant and field by field.
pub open spec fn call_eq(c1: TrustedCall, c2: TrustedCall) -> bool {
    match (c1, c2) {
        (
            TrustedCall::balance_transfer(f1, t1, a1),
            TrustedCall::balance_transfer(f2, t2, a2),
        ) => f1@ == f2@ && t1@ == t2@ && a1 == a2,
        (
            TrustedCall::balance_set_balance(w1, f1, r1),
            TrustedCall::balance_set_balance(w2, f2, r2),
        ) => w1@ == w2@ && f1 == f2 && r1 == r2,
        _ => false,
    }
}

/// Splitting a concatenation at a known length recovers both halves.
proof fn lemma_concat_split(a: Seq<u8>, b: Seq<u8>, c: Seq<u8>, d: Seq<u8>)
    requires
        a.len() == c.len(),
        a + b == c + d,
    ensures
        a == c,
        b == d,
{
    assert(a =~= (a + b).take(a.len() as int));
    assert(c =~= (c + d).take(c.len() as int));
    assert(b =~= (a + b).skip(a.len() as int));
    assert(d =~= (c + d).skip(c.len() as int));
}

/// The length of a well-formed call's canonical encoding, by variant.
proof fn lemma_call_bytes_len(c: TrustedCall)
    requires
        c.wf(),
    ensures
        c is balance_transfer ==> trusted_call_bytes(c).len() == 81,
        c is balance_set_balance ==> trusted_call_bytes(c).len() == 65,
        trusted_call_bytes(c).len() >= 1,
        trusted_call_bytes(c)[0] == (if c is balance_transfer {
            0u8
        } else {
            1u8
        }),
{
    match c {
        TrustedCall::balance_transfer(from, to, amount) => {
            lemma_le_bytes_len(amount as nat, 16);
        },
        TrustedCall::balance_set_balance(who, free, reserved) => {
            lemma_le_bytes_len(free as nat, 16);
            lemma_le_bytes_len(reserved as nat, 16);
        },
    }
}

/// The canonical call encoding is injective on well-formed calls: equal
/// encodings mean the same variant with the same fields.
pub proof fn lemma_call_encoding_injective(c1: TrustedCall, c2: TrustedCall)
    requires
        c1.wf(),
        c2.wf(),
        trusted_call_bytes(c1) == trusted_call_bytes(c2),
    ensures
        call_eq(c1, c2),
{
    lemma_call_bytes_len(c1);
    lemma_call_bytes_len(c2);
    lemma_pow256_values();
    match (c1, c2) {
        (TrustedCall::balance_transfer(f1, t1, a1), TrustedCall::balance_transfer(f2, t2, a2)) => {
            lemma_le_bytes_len(a1 as nat, 16);
            lemma_le_bytes_len(a2 as nat, 16);
            let e1 = trusted_call_bytes(c1);
            let e2 = trusted_call_bytes(c2);
            assert(e1 =~= (seq![0u8] + f1@) + (t1@ + le_bytes(a1 as nat, 16)));
            assert(e2 =~= (seq![0u8] + f2@) + (t2@ + le_bytes(a2 as nat, 16)));
            lemma_concat_split(
                seq![0u8] + f1@,
                t1@ + le_bytes(a1 as nat, 16),
                seq![0u8] + f2@,
                t2@ + le_bytes(a2 as nat, 16),
            );
            lemma_concat_split(seq![0u8], f1@, seq![0u8], f2@);
            lemma_concat_split(t1@, le_bytes(a1 as nat, 16), t2@, le_bytes(a2 as nat, 16));
            lemma_le_bytes_injective(a1 as nat, a2 as nat, 16);
        },
        (
            TrustedCall::balance_set_balance(w1, fr1, r1),
            TrustedCall::balance_set_balance(w2, fr2, r2),
        ) => {
            lemma_le_bytes_len(fr1 as nat, 16);
            lemma_le_bytes_len(fr2 as nat, 16);
            lemma_le_bytes_len(r1 as nat, 16);
            lemma_le_bytes_len(r2 as nat, 16);
            let e1 = trusted_call_bytes(c1);
            let e2 = trusted_call_bytes(c2);
            assert(e1 =~= (seq![1u8] + w1@) + (le_bytes(fr1 as nat, 16) + le_bytes(
                r1 as nat,
                16,
            )));
            assert(e2 =~= (seq![1u8] + w2@) + (le_bytes(fr2 as nat, 16) + le_bytes(
                r2 as nat,
                16,
            )));
            lemma_concat_split(
                seq![1u8] + w1@,
                le_bytes(fr1 as nat, 16) + le_bytes(r1 as nat, 16),
                seq![1u8] + w2@,
                le_bytes(fr2 as nat, 16) + le_bytes(r2 as nat, 16),
            );
            lemma_concat_split(seq![1u8], w1@, seq![1u8], w2@);
            lemma_concat_split(
                le_bytes(fr1 as nat, 16),
                le_bytes(r1 as nat, 16),
                le_bytes(fr2 as nat, 16),
                le_bytes(r2 as nat, 16),
            );
            lemma_le_bytes_injective(fr1 as nat, fr2 as nat, 16);
            lemma_le_bytes_injective(r1 as nat, r2 as nat, 16);
        },
        _ => {
            assert(trusted_call_bytes(c1)[0] != trusted_call_bytes(c2)[0]);
        },
    }
}

/// The signature binds every field jointly: two well-formed signing
/// payloads agree only when the call, the nonce, the identity measurement
/// and the shard all agree.  Substituting any one of them therefore
/// changes the bytes the signature is checked against.
pub proof fn lemma_payload_binds_fields(
    c1: TrustedCall,
    n1: u32,
    m1: Seq<u8>,
    s1: Seq<u8>,
    c2: TrustedCall,
    n2: u32,
    m2: Seq<u8>,
    s2: Seq<u8>,
)
    requires
        c1.wf(),
        c2.wf(),
        is_bytes32(m1),
        is_bytes32(m2),
        is_bytes32(s1),
        is_bytes32(s2),
        call_sign_payload(c1, n1, m1, s1) == call_sign_payload(c2, n2, m2, s2),
    ensures
        call_eq(c1, c2),
        n1 == n2,
        m1 == m2,
        s1 == s2,
{
    lemma_call_bytes_len(c1);
    lemma_call_bytes_len(c2);
    lemma_le_bytes_len(n1 as nat, 4);
    lemma_le_bytes_len(n2 as nat, 4);
    lemma_pow256_values();
    let p1 = call_sign_payload(c1, n1, m1, s1);
    let p2 = call_sign_payload(c2, n2, m2, s2);
    assert(p1[0] == trusted_call_bytes(c1)[0]);
    assert(p2[0] == trusted_call_bytes(c2)[0]);
    assert(trusted_call_bytes(c1).len() == trusted_call_bytes(c2).len());
    assert(p1 =~= trusted_call_bytes(c1) + (le_bytes(n1 as nat, 4) + (m1 + s1)));
    assert(p2 =~= trusted_call_bytes(c2) + (le_bytes(n2 as nat, 4) + (m2 + s2)));
    lemma_concat_split(
        trusted_call_bytes(c1),
        le_bytes(n1 as nat, 4) + (m1 + s1),
        trusted_call_bytes(c2),
        le_bytes(n2 as nat, 4) + (m2 + s2),
    );
    lemma_call_encoding_injective(c1, c2);
    lemma_concat_split(le_bytes(n1 as nat, 4), m1 + s1, le_bytes(n2 as nat, 4), m2 + s2);
    lemma_le_bytes_injective(n1 as nat, n2 as nat, 4);
    lemma_concat_split(m1, s1, m2, s2);
}

} // verus!
