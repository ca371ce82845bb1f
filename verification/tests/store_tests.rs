use state_api::bytes::{Address, HashValue};
use state_api::error::{ErrorCause, ErrorKind};
use state_api::ledger_info::{
    AggregateSignature, BlockInfo, CompleteLedgerInfo, EpochState, LedgerInfoVariant,
    LedgerInfoWithSignatures, LedgerInfoWithV0, ValidatorConsensusInfo, ValidatorVerifier,
};
use state_api::move_value::{MoveTypeLayout, MoveValueData};
use state_api::response::{AcceptType, ResponsePayload};
use state_api::sparse_merkle_proof::{SparseMerkleLeafNode, SparseMerkleProof};
use state_api::state_api::{StateApi, TableItemRequest, RawTableItemRequest, RawStateValueRequest};
use state_api::state_key::{StateKey, StructTag, encode_state_key};
use state_api::store::{
    BlockRecord, EpochEndingRecord, LedgerStore, ResourceLayout, StateValue, TransactionRecord,
    WriteRecord,
};
use state_api::transaction::{TransactionAccumulatorProof, TransactionInfo};

fn hash(b: u8) -> HashValue {
    HashValue::from_bytes(vec![b; 32]).unwrap()
}

fn addr(b: u8) -> Address {
    Address::from_bytes(vec![b; 32]).unwrap()
}

fn validator_set() -> ValidatorVerifier {
    ValidatorVerifier {
        validator_infos: vec![ValidatorConsensusInfo {
            address: vec![7; 32],
            public_key: vec![9; 48],
            voting_power: 10,
        }],
    }
}

fn epoch_state(epoch: u64) -> EpochState {
    EpochState::new(epoch, validator_set())
}

fn liws(epoch: u64, version: u64, ts: u64, next: Option<EpochState>) -> LedgerInfoWithSignatures {
    LedgerInfoWithSignatures {
        variant: LedgerInfoVariant::V0,
        data: LedgerInfoWithV0 {
            ledger_info: CompleteLedgerInfo {
                commit_info: BlockInfo {
                    epoch,
                    round: 3,
                    id: hash(0x10),
                    executed_state_id: hash(0x11),
                    version,
                    timestamp_usecs: ts,
                    next_epoch_state: next,
                },
                consensus_data_hash: hash(0x12),
            },
            signatures: AggregateSignature {
                validator_bitmask: vec![0b1000_0000],
                sig: Some(vec![8; 96]),
            },
        },
    }
}

fn smp() -> SparseMerkleProof {
    SparseMerkleProof {
        leaf: Some(SparseMerkleLeafNode { key: hash(0x21), value: hash(0x22) }),
        siblings: vec![hash(0x23), hash(0x24)],
    }
}

fn txn() -> TransactionRecord {
    TransactionRecord {
        info: TransactionInfo {
            state_root_hash: hash(0x31),
            event_root_hash: hash(0x32),
            gas_used: 21,
        },
        ledger_info_to_transaction_info_proof: TransactionAccumulatorProof {
            siblings: vec![hash(0x33)],
        },
    }
}

fn base_store(latest: u64, oldest: u64) -> LedgerStore {
    LedgerStore {
        chain_id: 4,
        latest_li: liws(2, latest, 777_000, None),
        oldest_version: oldest,
        block_height: 30,
        oldest_block_height: 10,
        writes: vec![],
        txns: (0..=latest).map(|_| txn()).collect(),
        epoch_endings: (0..6).map(|e| EpochEndingRecord {
            info: liws(e, 10 * e + 5, 1_000 + e, Some(epoch_state(e + 1))),
            hash: hash(0xe0 + e as u8),
        }).collect(),
        blocks: vec![BlockRecord { first_version: 0, last_version: latest }],
        latest_epoch_state: epoch_state(2),
        resource_layouts: vec![],
        first_viable_version: oldest,
        latest_state_checkpoint: Some(latest),
        snapshot_before: Some(latest),
    }
}

fn account_tag() -> StructTag {
    StructTag { address: addr(1), module: b"account".to_vec(), name: b"Account".to_vec() }
}

fn write_record(version: u64, key: Vec<u8>, data: Vec<u8>) -> WriteRecord {
    WriteRecord {
        version,
        key,
        value: StateValue { data, hash: hash(0xab) },
        key_hash: hash(0xcd),
        proof: smp(),
    }
}

#[test]
fn resource_at_latest_returns_last_write() {
    // A ledger at version 100 where the resource was last written at 80:
    // the read returns the version-80 bytes and the snapshot says 100.
    let mut store = base_store(100, 0);
    let key = encode_state_key(&StateKey::AccountResource { address: addr(0xa), tag: account_tag() });
    store.writes.push(write_record(80, key, vec![1, 2, 3]));
    let api = StateApi { store };
    let resp = api.resource(&AcceptType::Bcs, &addr(0xa), &account_tag(), None).unwrap();
    assert_eq!(resp.ledger_info.version(), 100);
    match resp.payload {
        ResponsePayload::Bcs(b) => assert_eq!(b, vec![1, 2, 3]),
        _ => panic!("expected raw payload"),
    }
}

#[test]
fn resource_below_retention_window_is_gone() {
    // The same resource requested at version 50 where retention starts at
    // 60 is gone, not absent.
    let mut store = base_store(100, 60);
    let key = encode_state_key(&StateKey::AccountResource { address: addr(0xa), tag: account_tag() });
    store.writes.push(write_record(80, key, vec![1, 2, 3]));
    let api = StateApi { store };
    let err = api.resource(&AcceptType::Bcs, &addr(0xa), &account_tag(), Some(50)).unwrap_err();
    assert_eq!(err.kind, ErrorKind::Gone);
    assert!(err.ledger_info.is_some());
}

#[test]
fn resource_beyond_latest_is_gone() {
    let store = base_store(100, 0);
    let api = StateApi { store };
    let err = api.resource(&AcceptType::Bcs, &addr(0xa), &account_tag(), Some(200)).unwrap_err();
    assert_eq!(err.kind, ErrorKind::Gone);
}

#[test]
fn resource_absent_is_not_found() {
    let store = base_store(100, 0);
    let api = StateApi { store };
    let err = api.resource(&AcceptType::Bcs, &addr(0xa), &account_tag(), None).unwrap_err();
    assert_eq!(err.kind, ErrorKind::NotFound);
    assert_eq!(err.ledger_info.unwrap().version(), 100);
}

#[test]
fn resource_invalid_identifier_is_bad_input() {
    let store = base_store(100, 0);
    let api = StateApi { store };
    let bad = StructTag { address: addr(1), module: b"2bad".to_vec(), name: b"Account".to_vec() };
    let err = api.resource(&AcceptType::Bcs, &addr(0xa), &bad, None).unwrap_err();
    assert_eq!(err.kind, ErrorKind::BadInput);
}

#[test]
fn resource_decoded_format_returns_typed_value() {
    let mut store = base_store(100, 0);
    let key = encode_state_key(&StateKey::AccountResource { address: addr(0xa), tag: account_tag() });
    store.writes.push(write_record(80, key.clone(), bcs::to_bytes(&77u64).unwrap()));
    store.resource_layouts.push(ResourceLayout { tag: key, layout: MoveTypeLayout::U64 });
    let api = StateApi { store };
    let resp = api.resource(&AcceptType::Json, &addr(0xa), &account_tag(), None).unwrap();
    match resp.payload {
        ResponsePayload::Json(res) => assert_eq!(res.data, MoveValueData::U64(77)),
        _ => panic!("expected decoded payload"),
    }
}

#[test]
fn resource_decoded_format_without_layout_is_internal() {
    let mut store = base_store(100, 0);
    let key = encode_state_key(&StateKey::AccountResource { address: addr(0xa), tag: account_tag() });
    store.writes.push(write_record(80, key, vec![1]));
    let api = StateApi { store };
    let err = api.resource(&AcceptType::Json, &addr(0xa), &account_tag(), None).unwrap_err();
    assert_eq!(err.kind, ErrorKind::Internal);
}

#[test]
fn read_your_writes_with_overwrites() {
    let mut store = base_store(100, 0);
    let key = encode_state_key(&StateKey::Raw { key: vec![1] });
    store.writes.push(write_record(5, key.clone(), vec![0xa]));
    store.writes.push(write_record(8, key.clone(), vec![0xb]));
    assert_eq!(store.get_state_value_bytes(&key, 7), Some(vec![0xa]));
    assert_eq!(store.get_state_value_bytes(&key, 8), Some(vec![0xb]));
    assert_eq!(store.get_state_value_bytes(&key, 100), Some(vec![0xb]));
    assert_eq!(store.get_state_value_bytes(&key, 4), None);
}

#[test]
fn module_round_trip_and_not_found() {
    let mut store = base_store(100, 0);
    let key = encode_state_key(&StateKey::Module { address: addr(2), name: b"coin".to_vec() });
    store.writes.push(write_record(10, key, vec![0xca, 0xfe]));
    let api = StateApi { store };
    let resp = api.module(&AcceptType::Json, &addr(2), &b"coin".to_vec(), None).unwrap();
    match resp.payload {
        ResponsePayload::Json(m) => assert_eq!(m.bytecode, vec![0xca, 0xfe]),
        _ => panic!("expected decoded payload"),
    }
    let err = api.module(&AcceptType::Bcs, &addr(2), &b"other".to_vec(), None).unwrap_err();
    assert_eq!(err.kind, ErrorKind::NotFound);
    let err = api.module(&AcceptType::Bcs, &addr(2), &b"9bad".to_vec(), None).unwrap_err();
    assert_eq!(err.kind, ErrorKind::BadInput);
}

#[test]
fn table_item_typed_key_round_trip() {
    let mut store = base_store(100, 0);
    let raw_key = bcs::to_bytes(&5u64).unwrap();
    let key = encode_state_key(&StateKey::TableItem { handle: addr(3), key: raw_key });
    store.writes.push(write_record(10, key, bcs::to_bytes(&1234u64).unwrap()));
    let api = StateApi { store };
    let request = TableItemRequest {
        key_type: MoveTypeLayout::U64,
        key: MoveValueData::U64(5),
        value_type: MoveTypeLayout::U64,
    };
    let resp = api.table_item(&AcceptType::Json, &addr(3), &request, None).unwrap();
    match resp.payload {
        ResponsePayload::Json(v) => assert_eq!(v, MoveValueData::U64(1234)),
        _ => panic!("expected decoded payload"),
    }
}

#[test]
fn table_item_key_type_mismatch_is_bad_input() {
    let api = StateApi { store: base_store(100, 0) };
    let request = TableItemRequest {
        key_type: MoveTypeLayout::U64,
        key: MoveValueData::Bool(true),
        value_type: MoveTypeLayout::U64,
    };
    let err = api.table_item(&AcceptType::Json, &addr(3), &request, None).unwrap_err();
    assert_eq!(err.kind, ErrorKind::BadInput);
}

#[test]
fn raw_table_item_decoded_format_rejected() {
    // The decoded format on the raw table-item operation fails before any
    // decoding is attempted.
    let api = StateApi { store: base_store(100, 0) };
    let request = RawTableItemRequest { key: vec![1, 2] };
    let err = api.raw_table_item(&AcceptType::Json, &addr(3), &request, None).unwrap_err();
    assert_eq!(err.kind, ErrorKind::FormatNotSupported);
}

#[test]
fn table_item_not_found_carries_key() {
    // Both table-item paths report the serialized key, the handle and the
    // resolved version when the entry is absent.
    let api = StateApi { store: base_store(100, 0) };
    let typed = TableItemRequest {
        key_type: MoveTypeLayout::U64,
        key: MoveValueData::U64(5),
        value_type: MoveTypeLayout::U64,
    };
    let err = api.table_item(&AcceptType::Bcs, &addr(3), &typed, None).unwrap_err();
    assert_eq!(err.kind, ErrorKind::NotFound);
    match err.cause {
        ErrorCause::TableItemNotFound { handle, key, version } => {
            assert_eq!(handle.bytes, vec![3; 32]);
            assert_eq!(key, bcs::to_bytes(&5u64).unwrap());
            assert_eq!(version, 100);
        },
        _ => panic!("expected the table-item not-found cause"),
    }
    let raw = RawTableItemRequest { key: vec![9, 9] };
    let err = api.raw_table_item(&AcceptType::Bcs, &addr(3), &raw, None).unwrap_err();
    match err.cause {
        ErrorCause::TableItemNotFound { key, .. } => assert_eq!(key, vec![9, 9]),
        _ => panic!("expected the table-item not-found cause"),
    }
}

#[test]
fn raw_table_item_raw_format_returns_bytes() {
    let mut store = base_store(100, 0);
    let key = encode_state_key(&StateKey::TableItem { handle: addr(3), key: vec![1, 2] });
    store.writes.push(write_record(10, key, vec![0xdd]));
    let api = StateApi { store };
    let request = RawTableItemRequest { key: vec![1, 2] };
    let resp = api.raw_table_item(&AcceptType::Bcs, &addr(3), &request, None).unwrap();
    match resp.payload {
        ResponsePayload::Bcs(b) => assert_eq!(b, vec![0xdd]),
        _ => panic!("expected raw payload"),
    }
}

#[test]
fn raw_value_round_trip_and_errors() {
    let mut store = base_store(100, 0);
    let key = encode_state_key(&StateKey::Raw { key: vec![9, 9] });
    store.writes.push(write_record(10, key.clone(), vec![4, 5, 6]));
    let api = StateApi { store };

    let err = api.raw_value(&AcceptType::Json, &RawStateValueRequest { key: key.clone() }, None)
        .unwrap_err();
    assert_eq!(err.kind, ErrorKind::FormatNotSupported);

    let resp = api.raw_value(&AcceptType::Bcs, &RawStateValueRequest { key: key.clone() }, None)
        .unwrap();
    match resp.payload {
        // The canonical serialization of a state value: version tag, then
        // the length-prefixed bytes.
        ResponsePayload::Bcs(b) => assert_eq!(b, bcs::to_bytes(&(0u8, vec![4u8, 5, 6])).unwrap()),
        _ => panic!("expected raw payload"),
    }

    // Key bytes that are no canonical state-key encoding are malformed
    // caller input, rejected before any ledger read.
    let err = api.raw_value(&AcceptType::Bcs, &RawStateValueRequest { key: vec![0xff] }, None)
        .unwrap_err();
    assert_eq!(err.kind, ErrorKind::BadInput);
    assert!(err.ledger_info.is_none());

    let absent = encode_state_key(&StateKey::Raw { key: vec![8] });
    let err = api.raw_value(&AcceptType::Bcs, &RawStateValueRequest { key: absent.clone() }, None)
        .unwrap_err();
    assert_eq!(err.kind, ErrorKind::NotFound);
    match err.cause {
        ErrorCause::StateValueNotFound { key, version } => {
            assert_eq!(key, absent);
            assert_eq!(version, 100);
        },
        _ => panic!("expected the state-value not-found cause"),
    }
}

#[test]
fn every_read_below_window_is_gone() {
    // Every read operation classifies a pruned version as gone.
    let store = base_store(100, 60);
    let api = StateApi { store };
    let gone = Some(10u64);
    assert_eq!(
        api.resource(&AcceptType::Bcs, &addr(1), &account_tag(), gone).unwrap_err().kind,
        ErrorKind::Gone
    );
    assert_eq!(
        api.module(&AcceptType::Bcs, &addr(1), &b"coin".to_vec(), gone).unwrap_err().kind,
        ErrorKind::Gone
    );
    let typed = TableItemRequest {
        key_type: MoveTypeLayout::U64,
        key: MoveValueData::U64(1),
        value_type: MoveTypeLayout::U64,
    };
    assert_eq!(
        api.table_item(&AcceptType::Bcs, &addr(1), &typed, gone).unwrap_err().kind,
        ErrorKind::Gone
    );
    let raw = RawTableItemRequest { key: vec![1] };
    assert_eq!(
        api.raw_table_item(&AcceptType::Bcs, &addr(1), &raw, gone).unwrap_err().kind,
        ErrorKind::Gone
    );
    // The raw state key must be canonical, or the malformed-input check
    // fires before resolution.
    let raw_state = RawStateValueRequest { key: encode_state_key(&StateKey::Raw { key: vec![1] }) };
    assert_eq!(
        api.raw_value(&AcceptType::Bcs, &raw_state, gone).unwrap_err().kind,
        ErrorKind::Gone
    );
}
