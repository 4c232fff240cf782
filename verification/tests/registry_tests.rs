use base58::ToBase58;
use regex::Regex;
use substratee_client::account::accountid_from_text;
use substratee_client::extrinsic::{extrinsic_hex, forward_outcome};
use substratee_client::registry::{decode_enclave_entry, enclave_from_storage_hex, find_ip_port};
use substratee_client::Error;

#[test]
fn regex_works() {
    let url = "1192.168.10.21:9111askdfhkajsd";
    let re = Regex::new("[0-9]{1,3}.[0-9]{1,3}.[0-9]{1,3}.[0-9]{1,3}:[0-9]{4}").unwrap();

    println!("Regex {}", re.as_str());
    let m = re.find(url).unwrap();

    assert_eq!("192.168.10.21:9111", &url[m.start()..m.end()])
}

#[test]
fn address_scanner_agrees_with_regex() {
    // The verified scanner finds the same leftmost address the pattern
    // does, skipping the leading digit that cannot start a match.
    let url = b"1192.168.10.21:9111askdfhkajsd";
    let (start, end) = find_ip_port(url).unwrap();
    assert_eq!(&url[start..end], b"192.168.10.21:9111");
}

#[test]
fn address_scanner_rejects_binary_noise() {
    assert!(find_ip_port(b"no address here 1234:56").is_none());
    assert!(find_ip_port(b"1.2.3.4:123").is_none()); // port too short
    assert!(find_ip_port(b"1234.2.3:1234").is_none()); // only two dots
}

#[test]
fn enclave_is_read_from_storage_hex() {
    let mut value = vec![3u8; 32]; // signing key
    value.push(76); // the zone's length marker, stepped over
    value.extend_from_slice(b"some-metadata 10.0.0.1:2000 trailing");
    let text = format!("0x{}", hex::encode(&value));
    let enclave = enclave_from_storage_hex(&text).unwrap();
    assert_eq!(enclave.pubkey, vec![3u8; 32]);
    assert_eq!(enclave.url, b"10.0.0.1:2000".to_vec());
}

#[test]
fn enclave_without_address_is_rejected() {
    let mut value = vec![3u8; 32];
    value.push(10);
    value.extend_from_slice(b"no url inside");
    let text = format!("0x{}", hex::encode(&value));
    assert_eq!(enclave_from_storage_hex(&text).unwrap_err(), Error::EncodingError);
}

#[test]
fn enclave_entry_round_trip() {
    let mut bytes = Vec::new();
    bytes.extend_from_slice(&[1u8; 32]); // pubkey
    bytes.extend_from_slice(&[2u8; 32]); // mr_enclave
    bytes.extend_from_slice(&1_700_000_000u64.to_le_bytes());
    let url = b"ws://10.0.0.1:2000";
    bytes.push((url.len() as u8) << 2);
    bytes.extend_from_slice(url);
    let entry = decode_enclave_entry(&bytes).unwrap();
    assert_eq!(entry.pubkey, vec![1u8; 32]);
    assert_eq!(entry.mr_enclave, vec![2u8; 32]);
    assert_eq!(entry.timestamp, 1_700_000_000);
    assert_eq!(entry.url, url.to_vec());
}

#[test]
fn enclave_entry_truncated_is_rejected() {
    assert_eq!(decode_enclave_entry(&[0u8; 71]).unwrap_err(), Error::EncodingError);
}

fn account_text(version: u8, key: [u8; 32]) -> String {
    let mut body = vec![version];
    body.extend_from_slice(&key);
    let mut salted = b"SS58PRE".to_vec();
    salted.extend_from_slice(&body);
    let digest = blake2_rfc::blake2b::blake2b(64, &[], &salted);
    body.extend_from_slice(&digest.as_bytes()[..2]);
    body.to_base58()
}

#[test]
fn account_text_round_trips() {
    let key = [5u8; 32];
    let text = account_text(42, key);
    assert_eq!(accountid_from_text(&text).unwrap(), key.to_vec());
}

#[test]
fn account_text_with_wrong_version_is_rejected() {
    let text = account_text(41, [5u8; 32]);
    assert_eq!(accountid_from_text(&text).unwrap_err(), Error::EncodingError);
}

#[test]
fn account_text_with_bad_checksum_is_rejected() {
    let key = [5u8; 32];
    let mut body = vec![42u8];
    body.extend_from_slice(&key);
    body.extend_from_slice(&[0, 0]); // not the real checksum
    let text = body.to_base58();
    assert_eq!(accountid_from_text(&text).unwrap_err(), Error::EncodingError);
}

#[test]
fn expected_hash_is_the_zero_keyed_digest() {
    // The diagnostic hash is the 32-byte digest under a 32-byte zero key.
    let plaintext = b"a signed operation's encoding";
    let direct = blake2_rfc::blake2s::blake2s(32, &[0u8; 32], plaintext);
    assert_eq!(
        substratee_client::hashing::expected_call_hash(plaintext),
        direct.as_bytes().to_vec()
    );
}

#[test]
fn extrinsic_hex_is_prefixed_lowercase() {
    assert_eq!(extrinsic_hex(&[0xde, 0xad, 0x01]), "0xdead01");
    assert_eq!(extrinsic_hex(&[]), "0x");
}

#[test]
fn boundary_success_forwards_verbatim() {
    let forwarded = forward_outcome(true, &[0xab, 0xcd]).unwrap();
    assert_eq!(forwarded, "0xabcd");
}

#[test]
fn boundary_failure_aborts_with_boundary_error() {
    assert_eq!(forward_outcome(false, &[0xab]).unwrap_err(), Error::BoundaryError);
}

#[test]
fn overlong_account_text_is_rejected() {
    // Texts past the decoder's fixed buffer are refused up front.
    let text = "1".repeat(200);
    assert_eq!(accountid_from_text(&text).unwrap_err(), Error::EncodingError);
}
