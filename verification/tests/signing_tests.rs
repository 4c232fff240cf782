use substratee_client::model::{ShardIdentifier, TrustedCall, TrustedGetter};
use substratee_client::signing::sr25519_public_key;

fn shard_of(bytes: [u8; 32]) -> ShardIdentifier {
    ShardIdentifier::from_slice(&bytes).unwrap()
}

fn signed_transfer(seed: &[u8; 32]) -> substratee_client::signing::TrustedCallSigned {
    let from = sr25519_public_key(seed);
    let to = vec![2u8; 32];
    let call = TrustedCall::balance_transfer(from, to, 1000);
    call.sign(seed, 1, &vec![7u8; 32], &shard_of([7u8; 32]))
}

#[test]
fn signature_verifies_under_matching_key() {
    let seed = [1u8; 32];
    let signed = signed_transfer(&seed);
    assert!(signed.verify_signature());
}

#[test]
fn signature_fails_under_other_key() {
    // The same signature checked under a different signer account fails.
    let seed = [1u8; 32];
    let other = sr25519_public_key(&[2u8; 32]);
    let mut signed = signed_transfer(&seed);
    let (to, amount) = match &signed.call {
        TrustedCall::balance_transfer(_, to, amount) => (to.clone(), *amount),
        _ => unreachable!(),
    };
    signed.call = TrustedCall::balance_transfer(other, to, amount);
    assert!(!signed.verify_signature());
}

#[test]
fn flipped_call_bit_invalidates_signature() {
    let seed = [1u8; 32];
    let mut signed = signed_transfer(&seed);
    let (from, mut to, amount) = match &signed.call {
        TrustedCall::balance_transfer(from, to, amount) => (from.clone(), to.clone(), *amount),
        _ => unreachable!(),
    };
    to[0] ^= 1;
    signed.call = TrustedCall::balance_transfer(from, to, amount);
    assert!(!signed.verify_signature());
}

#[test]
fn changed_amount_invalidates_signature() {
    let seed = [1u8; 32];
    let mut signed = signed_transfer(&seed);
    let (from, to) = match &signed.call {
        TrustedCall::balance_transfer(from, to, _) => (from.clone(), to.clone()),
        _ => unreachable!(),
    };
    signed.call = TrustedCall::balance_transfer(from, to, 1001);
    assert!(!signed.verify_signature());
}

#[test]
fn changed_nonce_invalidates_signature() {
    let seed = [1u8; 32];
    let mut signed = signed_transfer(&seed);
    signed.nonce = 2;
    assert!(!signed.verify_signature());
}

#[test]
fn flipped_mrenclave_bit_invalidates_signature() {
    let seed = [1u8; 32];
    let mut signed = signed_transfer(&seed);
    signed.mrenclave[0] ^= 1;
    assert!(!signed.verify_signature());
}

#[test]
fn flipped_shard_bit_invalidates_signature() {
    let seed = [1u8; 32];
    let mut signed = signed_transfer(&seed);
    signed.shard.bytes[31] ^= 1;
    assert!(!signed.verify_signature());
}

#[test]
fn flipped_signature_bit_fails() {
    let seed = [1u8; 32];
    let mut signed = signed_transfer(&seed);
    signed.signature[10] ^= 1;
    assert!(!signed.verify_signature());
}

#[test]
fn set_balance_signs_and_verifies() {
    let seed = [3u8; 32];
    let who = sr25519_public_key(&seed);
    let call = TrustedCall::balance_set_balance(who, 500, 500);
    let signed = call.sign(&seed, 0, &vec![0u8; 32], &shard_of([0u8; 32]));
    assert!(signed.verify_signature());
}

#[test]
fn getter_signs_and_verifies() {
    let seed = [4u8; 32];
    let who = sr25519_public_key(&seed);
    let getter = TrustedGetter::free_balance(who);
    let signed = getter.sign(&seed);
    assert!(signed.verify_signature());
}

#[test]
fn getter_signature_bound_to_account() {
    let seed = [4u8; 32];
    let who = sr25519_public_key(&seed);
    let getter = TrustedGetter::free_balance(who);
    let mut signed = getter.sign(&seed);
    let TrustedGetter::free_balance(mut account) = signed.getter;
    account[5] ^= 0x80;
    signed.getter = TrustedGetter::free_balance(account);
    assert!(!signed.verify_signature());
}

#[test]
fn public_key_matches_scheme() {
    // The library's derived public key is the signing scheme's own.
    let seed = [9u8; 32];
    let mini = schnorrkel::MiniSecretKey::from_bytes(&seed).unwrap();
    let expected = mini
        .expand_to_public(schnorrkel::ExpansionMode::Ed25519)
        .to_bytes()
        .to_vec();
    assert_eq!(sr25519_public_key(&seed), expected);
}

#[test]
fn signed_call_encoding_carries_payload_and_signature() {
    let seed = [1u8; 32];
    let signed = signed_transfer(&seed);
    let bytes = signed.encode();
    // variant tag + two accounts + amount, then nonce, mrenclave, shard,
    // signature.
    assert_eq!(bytes.len(), 81 + 4 + 32 + 32 + 64);
    assert_eq!(bytes[0], 0); // balance_transfer tag
    assert_eq!(&bytes[81..85], &[1, 0, 0, 0]); // nonce 1, little-endian
}
