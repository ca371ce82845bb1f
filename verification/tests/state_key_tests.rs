use state_api::bytes::Address;
use state_api::state_key::{
    StateKey, StructTag, account_resource_key, decode_state_key, encode_state_key,
    verify_identifier,
};

fn addr(b: u8) -> Address {
    Address::from_bytes(vec![b; 32]).unwrap()
}

fn tag() -> StructTag {
    StructTag { address: addr(1), module: b"account".to_vec(), name: b"Account".to_vec() }
}

#[test]
fn account_resource_key_encoding() {
    let key = StateKey::AccountResource { address: addr(0xaa), tag: tag() };
    let encoded = encode_state_key(&key);
    let mut expected = vec![0u8];
    expected.extend_from_slice(&[0xaa; 32]);
    expected.extend_from_slice(&[1; 32]);
    expected.extend_from_slice(&bcs::to_bytes(&b"account".to_vec()).unwrap());
    expected.extend_from_slice(&bcs::to_bytes(&b"Account".to_vec()).unwrap());
    assert_eq!(encoded, expected);
}

#[test]
fn module_key_encoding() {
    let key = StateKey::Module { address: addr(2), name: b"coin".to_vec() };
    let encoded = encode_state_key(&key);
    let mut expected = vec![1u8];
    expected.extend_from_slice(&[2; 32]);
    expected.extend_from_slice(&bcs::to_bytes(&b"coin".to_vec()).unwrap());
    assert_eq!(encoded, expected);
}

#[test]
fn table_item_and_raw_key_encoding() {
    let key = StateKey::TableItem { handle: addr(3), key: vec![9, 8, 7] };
    let encoded = encode_state_key(&key);
    let mut expected = vec![2u8];
    expected.extend_from_slice(&[3; 32]);
    expected.extend_from_slice(&bcs::to_bytes(&vec![9u8, 8, 7]).unwrap());
    assert_eq!(encoded, expected);

    let raw = StateKey::Raw { key: vec![5, 5] };
    let encoded_raw = encode_state_key(&raw);
    let mut expected_raw = vec![3u8];
    expected_raw.extend_from_slice(&bcs::to_bytes(&vec![5u8, 5]).unwrap());
    assert_eq!(encoded_raw, expected_raw);
}

#[test]
fn state_key_decode_round_trip() {
    let keys = vec![
        StateKey::AccountResource { address: addr(0xaa), tag: tag() },
        StateKey::Module { address: addr(2), name: b"coin".to_vec() },
        StateKey::TableItem { handle: addr(3), key: vec![9, 8, 7] },
        StateKey::Raw { key: vec![] },
    ];
    for key in keys {
        let encoded = encode_state_key(&key);
        let decoded = decode_state_key(&encoded).unwrap();
        assert_eq!(encode_state_key(&decoded), encoded);
    }
}

#[test]
fn state_key_decode_rejects_malformed() {
    // Unknown variant.
    assert!(decode_state_key(&vec![9u8]).is_none());
    // Truncated address.
    assert!(decode_state_key(&vec![1u8, 2, 3]).is_none());
    // Trailing garbage after a complete key.
    let mut encoded = encode_state_key(&StateKey::Raw { key: vec![5] });
    encoded.push(0);
    assert!(decode_state_key(&encoded).is_none());
    // Empty input.
    assert!(decode_state_key(&vec![]).is_none());
}

#[test]
fn canonical_account_key_uses_core_framework_account_type() {
    let key = account_resource_key(&addr(0xbb));
    let encoded = encode_state_key(&key);
    let mut expected = vec![0u8];
    expected.extend_from_slice(&[0xbb; 32]);
    let mut core = vec![0u8; 31];
    core.push(1);
    expected.extend_from_slice(&core);
    expected.extend_from_slice(&bcs::to_bytes(&b"account".to_vec()).unwrap());
    expected.extend_from_slice(&bcs::to_bytes(&b"Account".to_vec()).unwrap());
    assert_eq!(encoded, expected);
}

#[test]
fn identifier_validation() {
    assert!(verify_identifier(&b"account".to_vec()));
    assert!(verify_identifier(&b"_private2".to_vec()));
    // A lone underscore is not an identifier.
    assert!(!verify_identifier(&b"_".to_vec()));
    assert!(verify_identifier(&b"CoinStore".to_vec()));
    assert!(!verify_identifier(&b"".to_vec()));
    assert!(!verify_identifier(&b"2fast".to_vec()));
    assert!(!verify_identifier(&b"has-dash".to_vec()));
    assert!(!verify_identifier(&b"has space".to_vec()));
}
