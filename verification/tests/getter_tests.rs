use substratee_client::getter::{
    interpret_getter_response, interpret_latest_state, interpret_worker_amount,
};
use substratee_client::hexcodec::{hexstr_to_u128, hexstr_to_u64, hexstr_to_vec};
use substratee_client::Error;

fn present_value_response(value: u128) -> Vec<u8> {
    // Option tag, a compact length of sixteen, the value little-endian.
    let mut r = vec![1u8, 16 << 2];
    r.extend_from_slice(&value.to_le_bytes());
    r
}

#[test]
fn present_value_is_decoded() {
    let response = present_value_response(1000);
    assert_eq!(interpret_getter_response(&response).unwrap(), Some(1000));
}

#[test]
fn absent_value_is_decoded() {
    let mut response = vec![0u8];
    response.extend_from_slice(&[0u8; 17]);
    assert_eq!(interpret_getter_response(&response).unwrap(), None);
}

#[test]
fn short_response_is_value_decode_error() {
    assert_eq!(
        interpret_getter_response(&[1u8; 17]).unwrap_err(),
        Error::ValueDecodeError
    );
}

#[test]
fn bad_option_tag_is_value_decode_error() {
    // A window that does not decode as a valid optional value yields a
    // typed error; the process is not aborted.
    let mut response = vec![2u8];
    response.extend_from_slice(&[0u8; 17]);
    assert_eq!(
        interpret_getter_response(&response).unwrap_err(),
        Error::ValueDecodeError
    );
}

#[test]
fn overlong_value_length_is_value_decode_error() {
    // The claimed length reaches past the fixed window.
    let mut response = vec![1u8, 17 << 2];
    response.extend_from_slice(&[0u8; 16]);
    assert_eq!(
        interpret_getter_response(&response).unwrap_err(),
        Error::ValueDecodeError
    );
}

#[test]
fn short_value_within_window_is_decoded() {
    let mut response = vec![1u8, 4 << 2, 0xe8, 0x03, 0, 0];
    response.extend_from_slice(&[0xffu8; 12]); // past the value, ignored
    assert_eq!(interpret_getter_response(&response).unwrap(), Some(1000));
}

#[test]
fn extra_response_bytes_are_ignored() {
    let mut response = present_value_response(7);
    response.extend_from_slice(b"trailing noise the window never reads");
    assert_eq!(interpret_getter_response(&response).unwrap(), Some(7));
}

#[test]
fn hexstr_to_u64_reads_little_endian() {
    assert_eq!(hexstr_to_u64("0x2a00000000000000".to_string()), 42);
    assert_eq!(hexstr_to_u64("0100000000000000".to_string()), 1);
}

#[test]
fn hexstr_to_u128_reads_little_endian() {
    assert_eq!(hexstr_to_u128("0xe803000000000000").unwrap(), 1000);
    assert_eq!(hexstr_to_u128("0x").unwrap(), 0);
    assert_eq!(hexstr_to_u128("0xgg").unwrap_err(), Error::EncodingError);
}

#[test]
fn hexstr_to_vec_strips_prefix() {
    assert_eq!(hexstr_to_vec("0xdeadBEEF").unwrap(), vec![0xde, 0xad, 0xbe, 0xef]);
    assert_eq!(hexstr_to_vec("00ff").unwrap(), vec![0, 255]);
    assert_eq!(hexstr_to_vec("0x1").unwrap_err(), Error::EncodingError);
    assert_eq!(hexstr_to_vec("0xq0").unwrap_err(), Error::EncodingError);
}

#[test]
fn worker_amount_null_means_none_registered() {
    assert_eq!(interpret_worker_amount("null").unwrap(), 0);
}

#[test]
fn worker_amount_reads_count() {
    assert_eq!(interpret_worker_amount("0x0500000000000000").unwrap(), 5);
}

#[test]
fn worker_amount_rejects_malformed_value() {
    assert_eq!(
        interpret_worker_amount("0x05").unwrap_err(),
        Error::EncodingError
    );
    assert_eq!(
        interpret_worker_amount("nul").unwrap_err(),
        Error::EncodingError
    );
}

#[test]
fn latest_state_single_byte_means_no_update() {
    assert_eq!(interpret_latest_state(&[0u8]).unwrap(), None);
}

#[test]
fn latest_state_full_hash_is_returned() {
    let h = vec![5u8; 46];
    assert_eq!(interpret_latest_state(&h).unwrap(), Some(h.clone()));
}

#[test]
fn latest_state_wrong_length_is_rejected() {
    assert_eq!(
        interpret_latest_state(&[5u8; 20]).unwrap_err(),
        Error::EncodingError
    );
}
