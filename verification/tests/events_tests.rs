use substratee_client::events::{
    decode_batch, find_confirmation, scan_batch_for_confirmation, EventCounter, EventRecord,
    EVENT_CALL_CONFIRMED, EVENT_FORWARDED, REGISTRY_MODULE,
};
use substratee_client::hashing::{expected_call_hash, hashes_match};
use substratee_client::model::{ShardIdentifier, TrustedCall};
use substratee_client::request::get_identifiers;
use substratee_client::shielding::ShieldingKey;
use substratee_client::signing::sr25519_public_key;
use substratee_client::Error;
use base58::ToBase58;

fn wire_record(module: u8, variant: u8, payload: &[u8]) -> Vec<u8> {
    assert!(payload.len() < 16384);
    let mut out = vec![module, variant];
    if payload.len() < 64 {
        out.push((payload.len() as u8) << 2);
    } else {
        let v = ((payload.len() as u16) << 2) | 1;
        out.push((v & 0xff) as u8);
        out.push((v >> 8) as u8);
    }
    out.extend_from_slice(payload);
    out
}

fn wire_batch(records: &[Vec<u8>]) -> Vec<u8> {
    assert!(records.len() < 64);
    let mut out = vec![(records.len() as u8) << 2];
    for r in records {
        out.extend_from_slice(r);
    }
    out
}

fn confirmed_payload(sender: [u8; 32], hash: &[u8]) -> Vec<u8> {
    let mut p = sender.to_vec();
    p.extend_from_slice(hash);
    p
}

#[test]
fn batch_round_trip() {
    let bytes = wire_batch(&[
        wire_record(3, 0, b"xy"),
        wire_record(REGISTRY_MODULE, EVENT_FORWARDED, b"abc"),
    ]);
    let records = decode_batch(&bytes).unwrap();
    assert_eq!(records.len(), 2);
    assert_eq!(records[0].module, 3);
    assert_eq!(records[1].variant, EVENT_FORWARDED);
    assert_eq!(records[1].payload, b"abc".to_vec());
}

#[test]
fn batch_with_trailing_bytes_is_rejected() {
    let mut bytes = wire_batch(&[wire_record(3, 0, b"xy")]);
    bytes.push(0);
    assert_eq!(decode_batch(&bytes).unwrap_err(), Error::EncodingError);
}

#[test]
fn truncated_batch_is_rejected() {
    let mut bytes = wire_batch(&[wire_record(3, 0, b"xyz")]);
    bytes.pop();
    assert_eq!(decode_batch(&bytes).unwrap_err(), Error::EncodingError);
}

#[test]
fn short_confirmation_record_is_rejected() {
    // A call-confirmed record must carry at least its 32-byte sender.
    let bytes = wire_batch(&[wire_record(REGISTRY_MODULE, EVENT_CALL_CONFIRMED, b"short")]);
    assert_eq!(decode_batch(&bytes).unwrap_err(), Error::EncodingError);
}

#[test]
fn single_confirmation_among_unrelated_records_is_found() {
    // Exactly one call-confirmed record among unrelated records, in an
    // arbitrary position: correlation resolves on it, consuming no more
    // records than the batch holds.
    let sender = [8u8; 32];
    let hash = [0xcdu8; 32];
    for position in 0..5 {
        let mut records: Vec<Vec<u8>> = Vec::new();
        for slot in 0..5 {
            if slot == position {
                records.push(wire_record(
                    REGISTRY_MODULE,
                    EVENT_CALL_CONFIRMED,
                    &confirmed_payload(sender, &hash),
                ));
            } else {
                records.push(wire_record(2, slot as u8, b"unrelated"));
            }
        }
        let decoded = decode_batch(&wire_batch(&records)).unwrap();
        let (index, got_sender, got_hash) = find_confirmation(&decoded).unwrap();
        assert_eq!(index, position);
        assert!(index < decoded.len());
        assert_eq!(got_sender, sender.to_vec());
        assert_eq!(got_hash, hash.to_vec());
    }
}

#[test]
fn first_of_two_confirmations_wins() {
    let first = confirmed_payload([1u8; 32], &[0xaa; 32]);
    let second = confirmed_payload([2u8; 32], &[0xbb; 32]);
    let bytes = wire_batch(&[
        wire_record(REGISTRY_MODULE, EVENT_CALL_CONFIRMED, &first),
        wire_record(REGISTRY_MODULE, EVENT_CALL_CONFIRMED, &second),
    ]);
    let decoded = decode_batch(&bytes).unwrap();
    let (index, sender, _) = find_confirmation(&decoded).unwrap();
    assert_eq!(index, 0);
    assert_eq!(sender, vec![1u8; 32]);
}

#[test]
fn no_confirmation_in_unrelated_batch() {
    let bytes = wire_batch(&[wire_record(2, 0, b"a"), wire_record(4, 1, b"b")]);
    let decoded = decode_batch(&bytes).unwrap();
    assert!(find_confirmation(&decoded).is_none());
}

#[test]
fn counter_counts_registry_records_only() {
    let bytes = wire_batch(&[
        wire_record(REGISTRY_MODULE, 0, b"a"),
        wire_record(2, 0, b"b"),
        wire_record(REGISTRY_MODULE, EVENT_FORWARDED, b"c"),
    ]);
    let decoded = decode_batch(&bytes).unwrap();
    let mut counter = EventCounter::new();
    counter.feed(&decoded);
    assert_eq!(counter.count, 2);
    assert!(!counter.reached(3));
    counter.feed(&decoded);
    assert_eq!(counter.count, 4);
    assert!(counter.reached(3));
}

#[test]
fn scan_hex_batch_finds_confirmation() {
    let sender = [8u8; 32];
    let hash = [0xcdu8; 16];
    let bytes = wire_batch(&[
        wire_record(2, 0, b"noise"),
        wire_record(REGISTRY_MODULE, EVENT_CALL_CONFIRMED, &confirmed_payload(sender, &hash)),
    ]);
    let text = format!("0x{}", hex::encode(&bytes));
    let found = scan_batch_for_confirmation(&text).unwrap().unwrap();
    assert_eq!(found.0, sender.to_vec());
    assert_eq!(found.1, hash.to_vec());
}

#[test]
fn scan_rejects_bad_hex() {
    assert_eq!(
        scan_batch_for_confirmation("0xzz").unwrap_err(),
        Error::EncodingError
    );
}

#[test]
fn scan_reports_no_confirmation() {
    let bytes = wire_batch(&[wire_record(2, 0, b"noise")]);
    let text = format!("0x{}", hex::encode(&bytes));
    assert!(scan_batch_for_confirmation(&text).unwrap().is_none());
}

const N_HEX: &str = "894f31f5ea66d48df3dc8a54e26cecfe0e71d57dca1071b8f685791800f21b8bd2f1b48820f10ac07cebe22f57ee3c92cf8da97c5a23dc805fce0fc13aeb13a1359c53f340ff83dc19ccac54c294c2d156d5419e59f3f96bd3cad787011ef8ff65ea912a1bdd2ab1d6199bb9c43856d99b35d3a59ca4d6e9bddc052690a3548f4211dae1c3995a688adb29b34912811ea2012c37cc230065d53f7a0d37a14342c1d93c72c1845a65aeacb0f170285de1fb6f6821eafba03ab46ae284601b5b254bf84d05825acad76b6f1b6bb0a7dbfea778156ca76cb15b8481ea4a7bab07719845e4998221567712a49dc76c238672fd15236cc687af4590667c42f7cbc4e3";
const D_HEX: &str = "66f156f5958d0ea27647cbf623e3a2323ec61d57375ce8c5d11cf45288b2faeff3707ef6e82b8ef20d3613d786c6f7e6e170c5b69325fbb4cb1f0434cc655dcc291350e538bfd82df5b1bb29b8d02ad72390b2a773ad343c21071c5afcfe2993e0e6e17a7e756c02f40f32ef2d2b4801d119a3d9affced9b445a660a29ba2a343b0d56ebc0477ce671ed279ac5ff9699236b6100f9b9a3fbacf54bcc4dedae8c67d7d57471409e673394b2d92845982ae6f1fb37d8585ef60739cfc9e366f6198e38555da21054c975a8e8adc42aa279deaab7e2ea0d4d5da1d8302d579b270a7d68a3683555787e52b5dc6d95b5cc2796f606d20b73245c799c142f52914071";
const P_HEX: &str = "cccb235539d1c7ffb27e1442fd7fe9733e42df5b90a3fbbf7580e05067f1698cf5948a545f804eeb143a9aff659b0105cb80f288446f64dd5abca6e5d0b1e3eb409e7a8086c5d1d69ea9f508312275923db02235261e2555863e1f2a18a806efeb053fc41b656dab2de46e91e8e6e840f090f5a0ce6101996e3a0ba8ac8d6c7d";
const Q_HEX: &str = "aba463087e7786aa8015575691b0af0747003fcfdeb2d4901c66fdd96565e779a3708c7fd23525dffbf8b1fe3232be7201d3a0333586ae6f9b24955cb4fbdaf2b43c7851e78dcf327e2a9f7347dfa607096b77245ced83b3f7a0be7a7e6a3ea7fae916343bf85406389d2267b7c25d94cef440984d9d1bb1a00f80d49d0a94df";

#[test]
fn end_to_end_transfer_dispatch_and_confirmation() {
    // A signed balance transfer of 1000 from A to B, shielded under a
    // correctly fetched key, yields a submittable transaction and is
    // correlated with a later call-confirmed event; the diagnostic hash
    // of the shielded plaintext matches what the worker reports.
    let seed = [1u8; 32];
    let from = sr25519_public_key(&seed);
    let to = sr25519_public_key(&[2u8; 32]);
    let mrenclave: [u8; 32] = [7u8; 32];

    // The caller names a worker but no shard.
    let (mre, shard) = get_identifiers(&mrenclave.to_base58(), None).unwrap();
    assert_eq!(shard.bytes, mre);

    let call = TrustedCall::balance_transfer(from, to, 1000);
    let shard_for_sign = ShardIdentifier::from_slice(&shard.bytes).unwrap();
    let signed = call.sign(&seed, 0, &mre, &shard_for_sign);
    assert!(signed.verify_signature());

    let key = ShieldingKey::new(hex::decode(N_HEX).unwrap(), vec![0x01, 0x00, 0x01]).unwrap();
    let dispatch = substratee_client::extrinsic::prepare_dispatch(
        &signed,
        &key,
        shard,
        &seed,
        0,
        &vec![9u8; 32],
    )
    .unwrap();

    // The request targets the defaulted shard and the transaction is
    // submission-ready hex.
    assert_eq!(dispatch.request.shard.bytes, mrenclave.to_vec());
    assert!(dispatch.extrinsic_hex.starts_with("0x"));
    assert_eq!(dispatch.extrinsic_hex, format!("0x{}", hex::encode(&dispatch.extrinsic)));

    // The transaction's layout: version byte, signer, signature, nonce,
    // then the registry call carrying the encoded request.
    let xt = &dispatch.extrinsic;
    assert_eq!(xt[0], 132);
    assert_eq!(&xt[1..33], sr25519_public_key(&seed).as_slice());
    assert_eq!(&xt[33..97], dispatch.signature.as_slice());
    assert_eq!(&xt[97..101], &0u32.to_le_bytes());
    assert_eq!(
        xt[101],
        substratee_client::events::REGISTRY_MODULE
    );
    assert_eq!(&xt[103..135], dispatch.request.shard.bytes.as_slice());

    // Behind the boundary, the worker would decrypt exactly the signed
    // call's canonical encoding.
    let private = rsa::RsaPrivateKey::from_components(
        rsa::BigUint::from_bytes_be(&hex::decode(N_HEX).unwrap()),
        rsa::BigUint::from(65537u32),
        rsa::BigUint::from_bytes_be(&hex::decode(D_HEX).unwrap()),
        vec![
            rsa::BigUint::from_bytes_be(&hex::decode(P_HEX).unwrap()),
            rsa::BigUint::from_bytes_be(&hex::decode(Q_HEX).unwrap()),
        ],
    )
    .unwrap();
    let decrypted = private
        .decrypt(rsa::Pkcs1v15Encrypt, &dispatch.request.ciphertext)
        .unwrap();
    assert_eq!(decrypted, signed.encode());

    // The worker confirms with the hash of the plaintext it recovered;
    // the event batch eventually carries it.
    let reported = expected_call_hash(&decrypted);
    let worker_account = [3u8; 32];
    let batch = wire_batch(&[
        wire_record(2, 0, b"unrelated"),
        wire_record(
            REGISTRY_MODULE,
            EVENT_CALL_CONFIRMED,
            &confirmed_payload(worker_account, &reported),
        ),
    ]);
    let text = format!("0x{}", hex::encode(&batch));
    let (got_sender, got_hash) = scan_batch_for_confirmation(&text).unwrap().unwrap();
    assert_eq!(got_sender, worker_account.to_vec());

    // The out-of-band diagnostic comparison: reported equals expected.
    assert!(hashes_match(&dispatch.expected_hash, &got_hash));
}
