use state_api::basic::{BasicApi, HealthCheckSuccess};
use state_api::bytes::HashValue;
use state_api::error::ErrorKind;
use state_api::ledger_info::{
    AggregateSignature, BlockInfo, CompleteLedgerInfo, EpochState, LedgerInfoVariant,
    LedgerInfoWithSignatures, LedgerInfoWithV0, ValidatorConsensusInfo, ValidatorVerifier,
};
use state_api::response::{AcceptType, ResponsePayload};
use state_api::store::{BlockRecord, EpochEndingRecord, LedgerStore, TransactionRecord};
use state_api::transaction::{TransactionAccumulatorProof, TransactionInfo};

fn hash(b: u8) -> HashValue {
    HashValue::from_bytes(vec![b; 32]).unwrap()
}

fn validator_set() -> ValidatorVerifier {
    ValidatorVerifier {
        validator_infos: vec![ValidatorConsensusInfo {
            address: vec![7; 32],
            public_key: vec![9; 48],
            voting_power: 10,
        }],
    }
}

fn liws(epoch: u64, version: u64, ts: u64) -> LedgerInfoWithSignatures {
    LedgerInfoWithSignatures {
        variant: LedgerInfoVariant::V0,
        data: LedgerInfoWithV0 {
            ledger_info: CompleteLedgerInfo {
                commit_info: BlockInfo {
                    epoch,
                    round: 3,
                    id: hash(0x10),
                    executed_state_id: hash(0x11),
                    version,
                    timestamp_usecs: ts,
                    next_epoch_state: None,
                },
                consensus_data_hash: hash(0x12),
            },
            signatures: AggregateSignature { validator_bitmask: vec![1], sig: None },
        },
    }
}

fn txn() -> TransactionRecord {
    TransactionRecord {
        info: TransactionInfo {
            state_root_hash: hash(0x31),
            event_root_hash: hash(0x32),
            gas_used: 21,
        },
        ledger_info_to_transaction_info_proof: TransactionAccumulatorProof { siblings: vec![] },
    }
}

fn store_with_timestamp(ts: u64) -> LedgerStore {
    LedgerStore {
        chain_id: 4,
        latest_li: liws(2, 9, ts),
        oldest_version: 3,
        block_height: 30,
        oldest_block_height: 10,
        writes: vec![],
        txns: (0..=9).map(|_| txn()).collect(),
        epoch_endings: vec![EpochEndingRecord {
            info: {
                let mut record = liws(0, 1, 100);
                record.data.ledger_info.commit_info.next_epoch_state =
                    Some(EpochState::new(1, validator_set()));
                record
            },
            hash: hash(0xe0),
        }],
        blocks: vec![BlockRecord { first_version: 0, last_version: 9 }],
        latest_epoch_state: EpochState::new(2, validator_set()),
        resource_layouts: vec![],
        first_viable_version: 4,
        latest_state_checkpoint: None,
        snapshot_before: Some(8),
    }
}

#[test]
fn health_check_message() {
    assert_eq!(HealthCheckSuccess::new().message, "aptos-node:ok");
}

#[test]
fn healthy_without_threshold_always_succeeds() {
    let api = BasicApi { store: store_with_timestamp(777_000) };
    let (success, ledger_info) = api.healthy(None, 0).unwrap();
    assert_eq!(success.message, "aptos-node:ok");
    assert_eq!(ledger_info.version(), 9);
}

#[test]
fn healthy_within_threshold_succeeds() {
    // now - threshold = ledger timestamp exactly.
    let api = BasicApi { store: store_with_timestamp(777_000) };
    assert!(api.healthy(Some(1), 777_000 + 1_000_000).is_ok());
    assert!(api.healthy(Some(2), 777_000 + 2_000_000).is_ok());
}

#[test]
fn healthy_behind_threshold_is_service_unavailable() {
    let api = BasicApi { store: store_with_timestamp(777_000) };
    let err = api.healthy(Some(1), 777_000 + 1_000_001).unwrap_err();
    assert_eq!(err.kind, ErrorKind::ServiceUnavailable);
}

#[test]
fn healthy_threshold_before_clock_epoch_is_internal() {
    let api = BasicApi { store: store_with_timestamp(777_000) };
    let err = api.healthy(Some(10), 1_000_000).unwrap_err();
    assert_eq!(err.kind, ErrorKind::Internal);
}

#[test]
fn test_payload_reports_store_diagnostics() {
    let api = BasicApi { store: store_with_timestamp(777_000) };
    let resp = api.test(&AcceptType::Json).unwrap();
    assert_eq!(resp.ledger_info.version(), 9);
    match resp.payload {
        ResponsePayload::Json(p) => {
            assert_eq!(p.li_version, 9);
            assert_eq!(p.first_viable_version, 4);
            // An absent checkpoint version defaults to zero.
            assert_eq!(p.latest_state_checkpoint, 0);
            assert_eq!(p.snapshot_before, 8);
        },
        _ => panic!("expected decoded payload"),
    }
}

#[test]
fn test_payload_raw_bytes_match_bcs() {
    let api = BasicApi { store: store_with_timestamp(777_000) };
    let resp = api.test(&AcceptType::Bcs).unwrap();
    let expected = bcs::to_bytes(&(9u64, 4u64, 0u64, 8u64)).unwrap();
    match resp.payload {
        ResponsePayload::Bcs(b) => assert_eq!(b, expected),
        _ => panic!("expected raw payload"),
    }
}

#[test]
fn snapshot_metadata_reflects_store() {
    let api = BasicApi { store: store_with_timestamp(777_000) };
    let (_, ledger_info) = api.healthy(None, 0).unwrap();
    assert_eq!(ledger_info.epoch(), 2);
    assert_eq!(ledger_info.version(), 9);
    assert_eq!(ledger_info.oldest_version(), 3);
    assert_eq!(ledger_info.timestamp(), 777_000);
}
