use state_api::codec::{
    bcs_bool_bytes, bcs_byte_vec_bytes, bcs_u128_bytes, bcs_u64_bytes, bcs_u8_bytes,
    decode_u128_le, decode_u64_le, decode_uleb128, encode_hash_vec, encode_uleb128,
};
use state_api::bytes::HashValue;

fn hash(b: u8) -> HashValue {
    HashValue::from_bytes(vec![b; 32]).unwrap()
}

#[test]
fn uleb128_small_values_are_single_bytes() {
    assert_eq!(encode_uleb128(0), vec![0x00]);
    assert_eq!(encode_uleb128(1), vec![0x01]);
    assert_eq!(encode_uleb128(127), vec![0x7f]);
}

#[test]
fn uleb128_multi_byte_values() {
    assert_eq!(encode_uleb128(128), vec![0x80, 0x01]);
    assert_eq!(encode_uleb128(300), vec![0xac, 0x02]);
    assert_eq!(encode_uleb128(0x7fff_ffff), vec![0xff, 0xff, 0xff, 0xff, 0x07]);
}

#[test]
fn uleb128_matches_bcs_length_prefix() {
    // The length prefix bcs puts before a 300-byte vector is the ULEB128
    // encoding of 300.
    let v = vec![0u8; 300];
    let encoded = bcs::to_bytes(&v).unwrap();
    let prefix = encode_uleb128(300);
    assert_eq!(&encoded[..prefix.len()], &prefix[..]);
    assert_eq!(encoded.len(), prefix.len() + 300);
}

#[test]
fn uleb128_decode_round_trip() {
    for n in [0u64, 1, 127, 128, 255, 300, 16384, 0x7fff_ffff] {
        let bytes = encode_uleb128(n);
        let (value, end) = decode_uleb128(&bytes, 0).unwrap();
        assert_eq!(value, n);
        assert_eq!(end, bytes.len());
    }
}

#[test]
fn uleb128_decode_rejects_non_canonical() {
    // 0x80 0x00 would denote 0 with a useless continuation byte.
    assert!(decode_uleb128(&vec![0x80, 0x00], 0).is_none());
    // Unterminated continuation.
    assert!(decode_uleb128(&vec![0x80], 0).is_none());
    // Empty input.
    assert!(decode_uleb128(&vec![], 0).is_none());
}

#[test]
fn primitive_wrappers_match_known_encodings() {
    assert_eq!(bcs_u8_bytes(0xab), vec![0xab]);
    assert_eq!(bcs_u64_bytes(1), vec![1, 0, 0, 0, 0, 0, 0, 0]);
    assert_eq!(bcs_u64_bytes(0x0102030405060708), vec![8, 7, 6, 5, 4, 3, 2, 1]);
    assert_eq!(bcs_bool_bytes(true), vec![1]);
    assert_eq!(bcs_bool_bytes(false), vec![0]);
    let expected_u128 = bcs::to_bytes(&(7u128 << 64 | 9u128)).unwrap();
    assert_eq!(bcs_u128_bytes(7u128 << 64 | 9u128), expected_u128);
}

#[test]
fn byte_vec_wrapper_matches_bcs() {
    let v = vec![1u8, 2, 3, 4, 5];
    assert_eq!(bcs_byte_vec_bytes(&v), bcs::to_bytes(&v).unwrap());
    let empty: Vec<u8> = Vec::new();
    assert_eq!(bcs_byte_vec_bytes(&empty), bcs::to_bytes(&empty).unwrap());
}

#[test]
fn u64_decode_round_trip() {
    for x in [0u64, 1, 0xff, 0x0102030405060708, u64::MAX] {
        let bytes = bcs_u64_bytes(x);
        let (value, end) = decode_u64_le(&bytes, 0).unwrap();
        assert_eq!(value, x);
        assert_eq!(end, 8);
    }
    assert!(decode_u64_le(&vec![1, 2, 3], 0).is_none());
}

#[test]
fn u128_decode_round_trip() {
    for x in [0u128, 1, u64::MAX as u128 + 5, u128::MAX] {
        let bytes = bcs_u128_bytes(x);
        let (value, end) = decode_u128_le(&bytes, 0).unwrap();
        assert_eq!(value, x);
        assert_eq!(end, 16);
    }
}

#[test]
fn hash_vector_encoding_matches_bcs() {
    let hashes = vec![hash(1), hash(2), hash(3)];
    let as_vecs: Vec<Vec<u8>> = vec![vec![1; 32], vec![2; 32], vec![3; 32]];
    assert_eq!(encode_hash_vec(&hashes), bcs::to_bytes(&as_vecs).unwrap());
}
