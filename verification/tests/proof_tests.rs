use state_api::bytes::{Address, HashValue};
use state_api::error::ErrorKind;
use state_api::ledger_info::{
    AggregateSignature, BlockInfo, CompleteLedgerInfo, EpochState, LedgerInfoVariant,
    LedgerInfoWithSignatures, LedgerInfoWithV0, ValidatorConsensusInfo, ValidatorVerifier,
};
use state_api::response::{AcceptType, ResponsePayload};
use state_api::sparse_merkle_proof::{SparseMerkleLeafNode, SparseMerkleProof};
use state_api::state_api::StateApi;
use state_api::state_key::{account_resource_key, encode_state_key};
use state_api::store::{
    BlockRecord, EpochEndingRecord, LedgerStore, StateValue, TransactionRecord, WriteRecord,
};
use state_api::transaction::{TransactionAccumulatorProof, TransactionInfo};

// The serde image of a signed checkpoint, for building expected bytes with
// the bcs crate directly.
type LiwsTuple = (
    u8,
    ((u64, u64, Vec<u8>, Vec<u8>, u64, u64, Option<(u64, Vec<(Vec<u8>, Vec<u8>, u64)>)>), Vec<u8>),
    (Vec<u8>, Option<Vec<u8>>),
);

fn hash(b: u8) -> HashValue {
    HashValue::from_bytes(vec![b; 32]).unwrap()
}

fn addr(b: u8) -> Address {
    Address::from_bytes(vec![b; 32]).unwrap()
}

fn validator_set() -> ValidatorVerifier {
    ValidatorVerifier {
        validator_infos: vec![ValidatorConsensusInfo {
            address: vec![7; 32],
            public_key: vec![9; 48],
            voting_power: 10,
        }],
    }
}

fn verifier_tuple() -> Vec<(Vec<u8>, Vec<u8>, u64)> {
    vec![(vec![7; 32], vec![9; 48], 10)]
}

fn epoch_state(epoch: u64) -> EpochState {
    EpochState::new(epoch, validator_set())
}

fn liws(epoch: u64, version: u64, ts: u64, next: Option<EpochState>) -> LedgerInfoWithSignatures {
    LedgerInfoWithSignatures {
        variant: LedgerInfoVariant::V0,
        data: LedgerInfoWithV0 {
            ledger_info: CompleteLedgerInfo {
                commit_info: BlockInfo {
                    epoch,
                    round: 3,
                    id: hash(0x10),
                    executed_state_id: hash(0x11),
                    version,
                    timestamp_usecs: ts,
                    next_epoch_state: next,
                },
                consensus_data_hash: hash(0x12),
            },
            signatures: AggregateSignature {
                validator_bitmask: vec![0b1000_0000],
                sig: Some(vec![8; 96]),
            },
        },
    }
}

fn liws_tuple(epoch: u64, version: u64, ts: u64, next_epoch: Option<u64>) -> LiwsTuple {
    (
        0u8,
        (
            (
                epoch,
                3u64,
                vec![0x10; 32],
                vec![0x11; 32],
                version,
                ts,
                next_epoch.map(|e| (e, verifier_tuple())),
            ),
            vec![0x12; 32],
        ),
        (vec![0b1000_0000u8], Some(vec![8u8; 96])),
    )
}

fn smp() -> SparseMerkleProof {
    SparseMerkleProof {
        leaf: Some(SparseMerkleLeafNode { key: hash(0x21), value: hash(0x22) }),
        siblings: vec![hash(0x23), hash(0x24)],
    }
}

fn txn() -> TransactionRecord {
    TransactionRecord {
        info: TransactionInfo {
            state_root_hash: hash(0x31),
            event_root_hash: hash(0x32),
            gas_used: 21,
        },
        ledger_info_to_transaction_info_proof: TransactionAccumulatorProof {
            siblings: vec![hash(0x33)],
        },
    }
}

fn base_store(latest: u64, oldest: u64) -> LedgerStore {
    LedgerStore {
        chain_id: 4,
        latest_li: liws(2, latest, 777_000, None),
        oldest_version: oldest,
        block_height: 30,
        oldest_block_height: 10,
        writes: vec![],
        txns: (0..=latest).map(|_| txn()).collect(),
        epoch_endings: (0..6)
            .map(|e| EpochEndingRecord {
                info: liws(e, 10 * e + 5, 1_000 + e, Some(epoch_state(e + 1))),
                hash: hash(0xe0 + e as u8),
            })
            .collect(),
        blocks: vec![BlockRecord { first_version: 0, last_version: latest }],
        latest_epoch_state: epoch_state(2),
        resource_layouts: vec![],
        first_viable_version: oldest,
        latest_state_checkpoint: Some(latest),
        snapshot_before: Some(latest),
    }
}

fn account_write(version: u64, address: &Address, data: Vec<u8>) -> WriteRecord {
    WriteRecord {
        version,
        key: encode_state_key(&account_resource_key(address)),
        value: StateValue { data, hash: hash(0xab) },
        key_hash: hash(0xcd),
        proof: smp(),
    }
}

#[test]
fn account_proof_bytes_match_bcs() {
    // The payload passes through the store's proof, key digest and value
    // digest unchanged, binds everything to one version, and serializes
    // exactly as the bcs crate does.
    let mut store = base_store(100, 0);
    store.writes.push(account_write(100, &addr(0xa), vec![1, 2, 3]));
    let api = StateApi { store };
    let resp = api.account_proof(&AcceptType::Bcs, &addr(0xa), None).unwrap();
    assert_eq!(resp.ledger_info.version(), 100);
    let expected = bcs::to_bytes(&(
        (Some((vec![0x21u8; 32], vec![0x22u8; 32])), vec![vec![0x23u8; 32], vec![0x24u8; 32]]),
        vec![0xcdu8; 32],
        vec![0xabu8; 32],
        vec![vec![0x33u8; 32]],
        (vec![0x31u8; 32], vec![0x32u8; 32], 21u64),
        100u64,
        liws_tuple(2, 100, 777_000, None),
        verifier_tuple(),
    ))
    .unwrap();
    match resp.payload {
        ResponsePayload::Bcs(b) => assert_eq!(b, expected),
        _ => panic!("expected raw payload"),
    }
}

#[test]
fn account_proof_decoded_format_rejected() {
    let api = StateApi { store: base_store(100, 0) };
    let err = api.account_proof(&AcceptType::Json, &addr(0xa), None).unwrap_err();
    assert_eq!(err.kind, ErrorKind::FormatNotSupported);
}

#[test]
fn account_proof_without_state_value_is_not_found() {
    // An absent key at a valid, retained version is an ordinary not-found
    // outcome, also on the proof operation.
    let api = StateApi { store: base_store(100, 0) };
    let err = api.account_proof(&AcceptType::Bcs, &addr(0xa), None).unwrap_err();
    assert_eq!(err.kind, ErrorKind::NotFound);
    assert_eq!(err.ledger_info.unwrap().version(), 100);
}

#[test]
fn account_proof_by_block_height() {
    let mut store = base_store(100, 0);
    store.blocks = vec![BlockRecord { first_version: 0, last_version: 60 }];
    store.writes.push(account_write(55, &addr(0xa), vec![1]));
    let api = StateApi { store };
    // The proof is bound to the block's last version, where the write is
    // visible.
    assert!(api.account_proof(&AcceptType::Bcs, &addr(0xa), Some(0)).is_ok());
    // A height the store has no block for.
    let err = api.account_proof(&AcceptType::Bcs, &addr(0xa), Some(5)).unwrap_err();
    assert_eq!(err.kind, ErrorKind::NotFound);
}

#[test]
fn epoch_change_proof_bytes_match_bcs() {
    // For epoch 5 the store returns the checkpoints ending epochs 3 and 4;
    // the earlier anchors a trusted state for epoch 4 with its embedded
    // next-epoch validator set, the later is the proof chain.
    let api = StateApi { store: base_store(100, 0) };
    let resp = api.epoch_change_proof(&AcceptType::Bcs, Some(5)).unwrap();
    let mut expected =
        bcs::to_bytes(&(vec![liws_tuple(4, 45, 1_004, Some(5))], false)).unwrap();
    expected.extend_from_slice(
        &bcs::to_bytes(&(1u8, (35u64, vec![0xe3u8; 32]), (4u64, verifier_tuple()))).unwrap(),
    );
    match resp.payload {
        ResponsePayload::Bcs(b) => assert_eq!(b, expected),
        _ => panic!("expected raw payload"),
    }
}

#[test]
fn epoch_change_proof_single_checkpoint_is_internal() {
    // The store can produce only one of the two checkpoints: a ledger
    // metadata inconsistency, never a truncated proof.
    let mut store = base_store(100, 0);
    store.epoch_endings.truncate(5);
    let api = StateApi { store };
    let err = api.epoch_change_proof(&AcceptType::Bcs, Some(6)).unwrap_err();
    assert_eq!(err.kind, ErrorKind::Internal);
}

#[test]
fn epoch_change_proof_low_epoch_is_bad_input() {
    let api = StateApi { store: base_store(100, 0) };
    let err = api.epoch_change_proof(&AcceptType::Bcs, Some(1)).unwrap_err();
    assert_eq!(err.kind, ErrorKind::BadInput);
}

#[test]
fn epoch_change_proof_decoded_format_rejected() {
    let api = StateApi { store: base_store(100, 0) };
    let err = api.epoch_change_proof(&AcceptType::Json, Some(5)).unwrap_err();
    assert_eq!(err.kind, ErrorKind::FormatNotSupported);
}

#[test]
fn epoch_change_proof_defaults_to_latest_epoch() {
    // Without an epoch number the proof is for the latest epoch.
    let api = StateApi { store: base_store(100, 0) };
    let resp = api.epoch_change_proof(&AcceptType::Bcs, None).unwrap();
    // The latest epoch is 2, so the anchor comes from the checkpoint ending
    // epoch 0 and the chain from the one ending epoch 1.
    let mut expected = bcs::to_bytes(&(vec![liws_tuple(1, 15, 1_001, Some(2))], false)).unwrap();
    expected.extend_from_slice(
        &bcs::to_bytes(&(1u8, (5u64, vec![0xe0u8; 32]), (1u64, verifier_tuple()))).unwrap(),
    );
    match resp.payload {
        ResponsePayload::Bcs(b) => assert_eq!(b, expected),
        _ => panic!("expected raw payload"),
    }
}
