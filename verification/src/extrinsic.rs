//! Composing the ledger transaction that carries a request: the registry
//! module's forward-call entry point with the request as its sole
//! argument, signed by the submitting account and hex-encoded for the
//! submission RPC.  The submission itself — a blocking wait for finality
//! — is the caller's transport; everything that determines the bytes is
//! here.

use vstd::prelude::*;
use vstd::string::StringExecFns;
use crate::Error;
use crate::codec::{le_bytes, u32_to_le_bytes};
use crate::events::REGISTRY_MODULE;
use crate::hashing::{blake2s_of, expected_call_hash, zero_salt};
use crate::hexcodec::{hex_encode, hex_of};
use crate::model::{ShardIdentifier, push_bytes};
use crate::request::{Request, request_bytes};
use crate::shielding::ShieldingKey;
use crate::signing::{TrustedCallSigned, spec_signing_context, signing_context, sr25519_public,
    sr25519_public_key, sr25519_sign, sr25519_verify_ok};

verus! {

/// The registry module's forward-call entry point, by index.
pub const CALL_WORKER_INDEX: u8 = 0;

/// The version byte of a signed transaction in this encoding.
pub const EXTRINSIC_VERSION: u8 = 132;

/// The opaque transaction call that forwards a request: the registry
/// module's index, the entry point's index, then the request's wire
/// encoding.
pub open spec fn call_worker_call(req: Seq<u8>) -> Seq<u8> {
    seq![REGISTRY_MODULE, CALL_WORKER_INDEX] + req
}

/// What the submitting account signs: the call, its account nonce, and
/// the ledger's genesis identifier, so a transaction binds to one chain.
pub open spec fn extrinsic_sign_payload(call: Seq<u8>, nonce: u32, genesis: Seq<u8>) -> Seq<u8> {
    call + le_bytes(nonce as nat, 4) + genesis
}

/// A signed transaction's bytes: the version byte, the signer, the
/// signature, the nonce, the call.
pub open spec fn signed_extrinsic_bytes(
    signer: Seq<u8>,
    sig: Seq<u8>,
    nonce: u32,
    call: Seq<u8>,
) -> Seq<u8> {
    seq![EXTRINSIC_VERSION] + signer + sig + le_bytes(nonce as nat, 4) + call
}

/// Composes the forward-call transaction call for a request.
pub fn compose_call_worker(req: &Request) -> (r: Vec<u8>)
    requires
        req.wf(),
    ensures
        r@ == call_worker_call(request_bytes(req.shard.bytes@, req.ciphertext@)),
{
    let mut out: Vec<u8> = Vec::new();
    out.push(REGISTRY_MODULE);
    out.push(CALL_WORKER_INDEX);
    let encoded = req.encode();
    push_bytes(&mut out, encoded.as_slice());
    proof {
        assert(out@ =~= call_worker_call(request_bytes(req.shard.bytes@, req.ciphertext@)));
    }
    out
}

/// Assembles a signed transaction from its parts.  Pure composition: the
/// bytes are a function of the four arguments.
pub fn compose_signed_extrinsic(
    call: &Vec<u8>,
    signer: &Vec<u8>,
    signature: &Vec<u8>,
    nonce: u32,
) -> (r: Vec<u8>)
    ensures
        r@ == signed_extrinsic_bytes(signer@, signature@, nonce, call@),
{
    let mut out: Vec<u8> = Vec::new();
    out.push(EXTRINSIC_VERSION);
    push_bytes(&mut out, signer.as_slice());
    push_bytes(&mut out, signature.as_slice());
    let nonce_bytes = u32_to_le_bytes(nonce);
    push_bytes(&mut out, nonce_bytes.as_slice());
    push_bytes(&mut out, call.as_slice());
    proof {
        assert(out@ =~= signed_extrinsic_bytes(signer@, signature@, nonce, call@));
    }
    out
}

/// Signs a transaction call under the submitting account's seed and
/// assembles the transaction.  Returns the transaction and the signature
/// it carries; the signature is accepted by the scheme over the call,
/// nonce and genesis payload under the seed's public key.
pub fn sign_extrinsic(call: &Vec<u8>, seed: &[u8], nonce: u32, genesis: &Vec<u8>) -> (r: (
    Vec<u8>,
    Vec<u8>,
))
    requires
        seed@.len() == 32,
    ensures
        r.0@ == signed_extrinsic_bytes(sr25519_public(seed@), r.1@, nonce, call@),
        sr25519_verify_ok(
            sr25519_public(seed@),
            spec_signing_context(),
            extrinsic_sign_payload(call@, nonce, genesis@),
            r.1@,
        ),
{
    let ctx = signing_context();
    let mut payload: Vec<u8> = Vec::new();
    push_bytes(&mut payload, call.as_slice());
    let nonce_bytes = u32_to_le_bytes(nonce);
    push_bytes(&mut payload, nonce_bytes.as_slice());
    push_bytes(&mut payload, genesis.as_slice());
    proof {
        assert(payload@ =~= extrinsic_sign_payload(call@, nonce, genesis@));
    }
    let signature = sr25519_sign(seed, ctx.as_slice(), payload.as_slice());
    let signer = sr25519_public_key(seed);
    let extrinsic = compose_signed_extrinsic(call, &signer, &signature, nonce);
    (extrinsic, signature)
}

/// The hex text the submission RPC takes: `0x`, then each byte as two
/// lower-case digits.
pub fn extrinsic_hex(xt: &[u8]) -> (r: String)
    ensures
        r@ == seq!['0', 'x'] + hex_of(xt@),
{
    let mut out = String::from_str("0x");
    let body = hex_encode(xt);
    out.append(body.as_str());
    proof {
        reveal_strlit("0x");
        assert("0x"@ =~= seq!['0', 'x']);
    }
    out
}

/// Everything a dispatch sends and remembers: the request, the signed
/// transaction that carries it (raw and as submission text), the
/// signature inside it, and the diagnostic hash of the original
/// plaintext for out-of-band correlation.
pub struct Dispatch {
    pub request: Request,
    pub extrinsic: Vec<u8>,
    pub extrinsic_hex: String,
    pub signature: Vec<u8>,
    pub expected_hash: Vec<u8>,
}

/// The compute half of submitting a signed call: shield its encoding
/// under the worker's key, wrap the ciphertext for the shard, compose
/// and sign the forward-call transaction, and remember the diagnostic
/// hash — the zero-keyed hash of the original plaintext, compared
/// out-of-band against what a confirmation reports, never a failure.
/// `CapacityExceeded` comes exactly when the signed call's encoding
/// exceeds the key's capacity; `EncodingError` exactly when the scheme
/// rejects the key; otherwise the dispatch is produced.  The caller's
/// transport does the blocking submission and the confirmation wait.
pub fn prepare_dispatch(
    signed: &TrustedCallSigned,
    key: &ShieldingKey,
    shard: ShardIdentifier,
    seed: &[u8],
    account_nonce: u32,
    genesis: &Vec<u8>,
) -> (r: Result<Dispatch, Error>)
    requires
        key.wf(),
        shard.wf(),
        seed@.len() == 32,
    ensures
        match r {
            Ok(d) => {
                &&& d.request.shard.bytes@ == shard.bytes@
                &&& d.request.ciphertext@.len() == key.modulus@.len()
                &&& d.request.wf()
                &&& d.expected_hash@ == blake2s_of(zero_salt(), signed.spec_signed_bytes())
                &&& d.extrinsic@ == signed_extrinsic_bytes(
                    sr25519_public(seed@),
                    d.signature@,
                    account_nonce,
                    call_worker_call(request_bytes(shard.bytes@, d.request.ciphertext@)),
                )
                &&& sr25519_verify_ok(
                    sr25519_public(seed@),
                    spec_signing_context(),
                    extrinsic_sign_payload(
                        call_worker_call(request_bytes(shard.bytes@, d.request.ciphertext@)),
                        account_nonce,
                        genesis@,
                    ),
                    d.signature@,
                )
                &&& d.extrinsic_hex@ == seq!['0', 'x'] + hex_of(d.extrinsic@)
            },
            Err(e) => e == Error::CapacityExceeded || e == Error::EncodingError,
        },
        (r matches Err(e) && e == Error::CapacityExceeded) <==> signed.spec_signed_bytes().len()
            > key.spec_capacity(),
        (r matches Err(e) && e == Error::EncodingError) <==> (signed.spec_signed_bytes().len()
            <= key.spec_capacity() && !crate::shielding::rsa_key_accepted(
            key.modulus@,
            key.exponent@,
        )),
        signed.spec_signed_bytes().len() <= key.spec_capacity()
            && crate::shielding::rsa_key_accepted(key.modulus@, key.exponent@) ==> r is Ok,
{
    let request = crate::request::prepare_request(signed, key, shard)?;
    let plaintext = signed.encode();
    let expected_hash = expected_call_hash(plaintext.as_slice());
    let call = compose_call_worker(&request);
    let (extrinsic, signature) = sign_extrinsic(&call, seed, account_nonce, genesis);
    let hex_text = extrinsic_hex(extrinsic.as_slice());
    Ok(
        Dispatch {
            request,
            extrinsic,
            extrinsic_hex: hex_text,
            signature,
            expected_hash,
        },
    )
}

/// The forwarding orchestrator's decision after the sealed boundary
/// returns: on success, the boundary's opaque transaction is submitted
/// verbatim as hex text; on failure, the orchestrator aborts with
/// `BoundaryError` and emits nothing.
pub fn forward_outcome(boundary_ok: bool, output: &[u8]) -> (r: Result<String, Error>)
    ensures
        match r {
            Ok(text) => boundary_ok && text@ == seq!['0', 'x'] + hex_of(output@),
            Err(e) => !boundary_ok && e == Error::BoundaryError,
        },
{
    if boundary_ok {
        Ok(extrinsic_hex(output))
    } else {
        Err(Error::BoundaryError)
    }
}

} // verus!
