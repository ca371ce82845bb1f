use state_api::bytes::Address;
use state_api::move_value::{
    MoveTypeLayout, MoveValueData, check_value, decode_move_value_exact, encode_move_value,
};

fn addr(b: u8) -> Address {
    Address::from_bytes(vec![b; 32]).unwrap()
}

fn sample_layout() -> MoveTypeLayout {
    MoveTypeLayout::Struct(vec![
        MoveTypeLayout::U64,
        MoveTypeLayout::Bool,
        MoveTypeLayout::Vector(Box::new(MoveTypeLayout::U8)),
        MoveTypeLayout::Address,
        MoveTypeLayout::U128,
    ])
}

fn sample_value() -> MoveValueData {
    MoveValueData::Struct(vec![
        MoveValueData::U64(42),
        MoveValueData::Bool(true),
        MoveValueData::Vector(vec![
            MoveValueData::U8(1),
            MoveValueData::U8(2),
            MoveValueData::U8(3),
        ]),
        MoveValueData::Address(addr(5)),
        MoveValueData::U128(900),
    ])
}

#[test]
fn struct_encoding_matches_bcs() {
    // The same structure expressed with plain serde types, handed to the
    // real bcs crate.
    let expected = bcs::to_bytes(&(42u64, true, vec![1u8, 2, 3], [5u8; 32], 900u128)).unwrap();
    assert_eq!(encode_move_value(&sample_value()), expected);
}

#[test]
fn decode_inverts_encode() {
    let encoded = encode_move_value(&sample_value());
    let decoded = decode_move_value_exact(&sample_layout(), &encoded).unwrap();
    assert_eq!(decoded, sample_value());
}

#[test]
fn decode_accepts_real_bcs_bytes() {
    let bytes = bcs::to_bytes(&(7u64, false, vec![9u8], [1u8; 32], 1u128)).unwrap();
    let decoded = decode_move_value_exact(&sample_layout(), &bytes).unwrap();
    assert_eq!(
        decoded,
        MoveValueData::Struct(vec![
            MoveValueData::U64(7),
            MoveValueData::Bool(false),
            MoveValueData::Vector(vec![MoveValueData::U8(9)]),
            MoveValueData::Address(addr(1)),
            MoveValueData::U128(1),
        ])
    );
}

#[test]
fn decode_rejects_malformed_bytes() {
    // Truncated input.
    assert!(decode_move_value_exact(&MoveTypeLayout::U64, &vec![1, 2, 3]).is_none());
    // Trailing bytes.
    let mut bytes = bcs::to_bytes(&5u64).unwrap();
    bytes.push(0);
    assert!(decode_move_value_exact(&MoveTypeLayout::U64, &bytes).is_none());
    // A bool must be 0 or 1.
    assert!(decode_move_value_exact(&MoveTypeLayout::Bool, &vec![2]).is_none());
}

#[test]
fn nested_vector_encoding_matches_bcs() {
    let layout = MoveTypeLayout::Vector(Box::new(MoveTypeLayout::Vector(Box::new(
        MoveTypeLayout::U64,
    ))));
    let value = MoveValueData::Vector(vec![
        MoveValueData::Vector(vec![MoveValueData::U64(1), MoveValueData::U64(2)]),
        MoveValueData::Vector(vec![]),
    ]);
    let expected = bcs::to_bytes(&vec![vec![1u64, 2], vec![]]).unwrap();
    let encoded = encode_move_value(&value);
    assert_eq!(encoded, expected);
    assert_eq!(decode_move_value_exact(&layout, &encoded).unwrap(), value);
}

#[test]
fn conformance_checking() {
    assert!(check_value(&sample_value(), &sample_layout()));
    // Wrong field count.
    assert!(!check_value(&MoveValueData::Struct(vec![]), &sample_layout()));
    // Wrong primitive type.
    assert!(!check_value(&MoveValueData::U8(1), &MoveTypeLayout::U64));
    // Heterogeneous vector.
    let layout = MoveTypeLayout::Vector(Box::new(MoveTypeLayout::U8));
    let bad = MoveValueData::Vector(vec![MoveValueData::U8(1), MoveValueData::Bool(true)]);
    assert!(!check_value(&bad, &layout));
    // An address value must hold exactly 32 bytes.
    let short = MoveValueData::Address(Address { bytes: vec![1, 2, 3] });
    assert!(!check_value(&short, &MoveTypeLayout::Address));
}
