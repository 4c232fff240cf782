use rsa::{BigUint, RsaPrivateKey};
use substratee_client::shielding::{encrypt_shielded, ShieldingKey};
use substratee_client::Error;

// A fixed 1024-bit test key, so the round trip needs no slow generation.
const N_HEX: &str = "b23875a0d12ba4cf981f154684a3b7c5b3693f28472adb8f5a7ca3b988719d484ee6691ea7500b5d09a1795760aa04b5f0b81ddd79934bee7e0ef6ce94e2c07ad482ea0724afa23e7f51c3a99e0c9fae97eb559f9b8316610954858c8c9c71777a402249af05ac15ff0794a07672006d5d23dbf4aafeb45f11377729c027aff1";
const D_HEX: &str = "6cc3c025d101cda753b3448cb0ce298d621ccd0a8bc4401290aa9850d65060288cde5930f7f305bc55f051d95d88e52f142589346cc9d4014cb55d325df2b47c3c3d2c30c37a6f901fc11f5de30120a97eda700b23a895840a52c0888d926562a457b077c5679907967be13a6bd2ff1892155d77bea8d660106d6bb1e45fb701";
const P_HEX: &str = "c50c0fa34d2f6cf82caea3a5e894d96784b849c14fba064081c21a6a0505a0a8665de3300298b1fa450316a76f363dce3c7ba81fc9b1461c0a3c8c5c8375c3d9";
const Q_HEX: &str = "e78a763ef9ea70739120051ccf4ea222b8f367cc0b16e9b191b153fe9f12ca38eee614e9250b1bc15a4b00dd2a7aa5a46b7490a23cc6d4d87393a2bc2256f5d9";

fn test_public_key() -> ShieldingKey {
    ShieldingKey::new(hex::decode(N_HEX).unwrap(), vec![0x01, 0x00, 0x01]).unwrap()
}

fn test_private_key() -> RsaPrivateKey {
    RsaPrivateKey::from_components(
        BigUint::from_bytes_be(&hex::decode(N_HEX).unwrap()),
        BigUint::from(65537u32),
        BigUint::from_bytes_be(&hex::decode(D_HEX).unwrap()),
        vec![
            BigUint::from_bytes_be(&hex::decode(P_HEX).unwrap()),
            BigUint::from_bytes_be(&hex::decode(Q_HEX).unwrap()),
        ],
    )
    .unwrap()
}

#[test]
fn encrypt_then_decrypt_gives_plaintext_back() {
    // Within capacity, decrypting an encryption returns the plaintext.
    let key = test_public_key();
    let private = test_private_key();
    let plaintext: Vec<u8> = (0u8..100).collect();
    let ciphertext = encrypt_shielded(&plaintext, &key).unwrap();
    assert_eq!(ciphertext.len(), 128);
    assert_ne!(ciphertext, plaintext);
    let decrypted = private.decrypt(rsa::Pkcs1v15Encrypt, &ciphertext).unwrap();
    assert_eq!(decrypted, plaintext);
}

#[test]
fn encrypt_at_exact_capacity_round_trips() {
    let key = test_public_key();
    let private = test_private_key();
    let plaintext = vec![0xabu8; 117]; // modulus length 128 minus 11
    let ciphertext = encrypt_shielded(&plaintext, &key).unwrap();
    let decrypted = private.decrypt(rsa::Pkcs1v15Encrypt, &ciphertext).unwrap();
    assert_eq!(decrypted, plaintext);
}

#[test]
fn oversized_plaintext_is_capacity_exceeded() {
    let key = test_public_key();
    let plaintext = vec![0u8; 118];
    assert_eq!(encrypt_shielded(&plaintext, &key).unwrap_err(), Error::CapacityExceeded);
}

#[test]
fn two_encryptions_differ_but_both_decrypt() {
    // The padding is randomized: ciphertexts differ, plaintext does not.
    let key = test_public_key();
    let private = test_private_key();
    let plaintext = b"trusted operation".to_vec();
    let c1 = encrypt_shielded(&plaintext, &key).unwrap();
    let c2 = encrypt_shielded(&plaintext, &key).unwrap();
    assert_ne!(c1, c2);
    assert_eq!(private.decrypt(rsa::Pkcs1v15Encrypt, &c1).unwrap(), plaintext);
    assert_eq!(private.decrypt(rsa::Pkcs1v15Encrypt, &c2).unwrap(), plaintext);
}

#[test]
fn short_modulus_is_rejected() {
    assert_eq!(
        ShieldingKey::new(vec![1u8; 11], vec![1]).unwrap_err(),
        Error::EncodingError
    );
}

#[test]
fn leading_zero_modulus_is_rejected() {
    let mut modulus = hex::decode(N_HEX).unwrap();
    modulus[0] = 0;
    assert_eq!(
        ShieldingKey::new(modulus, vec![1]).unwrap_err(),
        Error::EncodingError
    );
}
