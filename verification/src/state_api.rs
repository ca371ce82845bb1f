use vstd::prelude::*;
use crate::bytes::Address;
use crate::codec::{u64_le, length_prefixed, bcs_u64_bytes, bcs_byte_vec_bytes, append_bytes};
use crate::error::{ErrorCause, ErrorKind, Operation, StateApiError};
use crate::ledger_info::{
    EpochState, EpochStateView, LedgerInfoWithSignatures, LedgerInfoWithSignaturesView,
    ValidatorVerifier, ledger_info_with_signatures_bytes, validator_verifier_bytes,
    encode_ledger_info_with_signatures, encode_validator_verifier,
};
use crate::move_value::{
    MoveTypeLayout, MoveValueData, conforms, value_wf, value_bytes, check_value, encode_move_value,
    decode_move_value_exact,
};
use crate::response::{AcceptType, BasicResponse, ResponsePayload};
use crate::sparse_merkle_proof::{
    SparseMerkleProof, SparseMerkleProofView, sparse_merkle_proof_bytes, encode_sparse_merkle_proof,
};
use crate::state_key::{
    StateKey, StructTag, state_key_bytes, account_resource_key_spec, account_resource_key,
    encode_state_key, decode_state_key, verify_identifier, is_valid_identifier,
};
use crate::store::{
    LedgerStore, WriteRecord, latest_write, find_layout, encode_state_value, state_value_bytes,
};
use crate::transaction::{
    TransactionInfo, TransactionInfoView, transaction_info_bytes, accumulator_proof_bytes,
    encode_transaction_info, encode_accumulator_proof,
};
use crate::trusted_state::{
    TrustedState, TrustedStateView, trusted_state_bytes, encode_trusted_state,
    TRUSTED_STATE_EPOCH_STATE_VARIANT,
};
use crate::waypoint::{Waypoint, WaypointView};
use crate::epoch_change::{
    EpochChangeProof, EpochChangeProofView, epoch_change_proof_bytes, encode_epoch_change_proof,
};

verus! {

// ---------------------------------------------------------------------------
// The state API: version-consistent reads of resources, modules, table
// entries and raw state values, and the two proof-assembly protocols.
// Every operation resolves one snapshot first and pins all its reads to it.
// ---------------------------------------------------------------------------

/// A typed resource: its type tag and its decoded value.
#[derive(Debug)]
pub struct MoveResource {
    pub tag: StructTag,
    pub data: MoveValueData,
}

/// A module's bytecode. Parsing the ABI out of the bytecode is the virtual
/// machine collaborator's work and happens outside this core.
#[derive(Debug)]
pub struct MoveModuleBytecode {
    pub bytecode: Vec<u8>,
}

/// A typed table-item request: the key's and value's type descriptors, and
/// the typed key itself.
pub struct TableItemRequest {
    pub key_type: MoveTypeLayout,
    pub key: MoveValueData,
    pub value_type: MoveTypeLayout,
}

/// A raw table-item request: the key already in its canonical bytes.
pub struct RawTableItemRequest {
    pub key: Vec<u8>,
}

/// A raw state-value request: the canonical bytes of the state key.
pub struct RawStateValueRequest {
    pub key: Vec<u8>,
}

/// The full evidence chain for one account at one version: everything an
/// external verifier needs with no further ledger access.
pub struct AccountProofPayload {
    /// Proof for the account's inclusion in the state tree.
    pub state_proof: SparseMerkleProof,
    /// Digest of the account's state key.
    pub element_key: crate::bytes::HashValue,
    /// Digest of the account's state value.
    pub element_hash: crate::bytes::HashValue,
    /// Proof for the transaction's inclusion in the accumulator.
    pub transaction_proof: crate::transaction::TransactionAccumulatorProof,
    /// Digest summary of the transaction.
    pub transaction: TransactionInfo,
    /// The transaction version the whole bundle is bound to.
    pub transaction_index: u64,
    /// The signed ledger checkpoint.
    pub ledger_info_v0: LedgerInfoWithSignatures,
    /// The validator set valid for the checkpoint's epoch.
    pub validator_verifier: ValidatorVerifier,
}

/// Spec-level image of an account proof payload.
pub struct AccountProofPayloadView {
    pub state_proof: SparseMerkleProofView,
    pub element_key: Seq<u8>,
    pub element_hash: Seq<u8>,
    pub transaction_proof: Seq<Seq<u8>>,
    pub transaction: TransactionInfoView,
    pub transaction_index: u64,
    pub ledger_info_v0: LedgerInfoWithSignaturesView,
    pub validator_verifier: Seq<crate::ledger_info::ValidatorConsensusInfoView>,
}

impl View for AccountProofPayload {
    type V = AccountProofPayloadView;

    open spec fn view(&self) -> AccountProofPayloadView {
        AccountProofPayloadView {
            state_proof: self.state_proof@,
            element_key: self.element_key@,
            element_hash: self.element_hash@,
            transaction_proof: self.transaction_proof@,
            transaction: self.transaction@,
            transaction_index: self.transaction_index,
            ledger_info_v0: self.ledger_info_v0@,
            validator_verifier: self.validator_verifier@,
        }
    }
}

impl AccountProofPayload {
    pub open spec fn wf(self) -> bool {
        &&& self.state_proof.wf()
        &&& self.element_key.wf()
        &&& self.element_hash.wf()
        &&& self.transaction_proof.wf()
        &&& self.transaction.wf()
        &&& self.ledger_info_v0.wf()
        &&& self.validator_verifier.wf()
    }
}

/// Canonical encoding of an account proof payload: its fields in order.
pub open spec fn account_proof_payload_bytes(p: AccountProofPayloadView) -> Seq<u8> {
    sparse_merkle_proof_bytes(p.state_proof) + length_prefixed(p.element_key) + length_prefixed(
        p.element_hash,
    ) + accumulator_proof_bytes(p.transaction_proof) + transaction_info_bytes(p.transaction)
        + u64_le(p.transaction_index) + ledger_info_with_signatures_bytes(p.ledger_info_v0)
        + validator_verifier_bytes(p.validator_verifier)
}

/// Serializes an account proof payload.
pub fn encode_account_proof_payload(p: &AccountProofPayload) -> (r: Vec<u8>)
    requires
        p.wf(),
    ensures
        r@ == account_proof_payload_bytes(p@),
{
    let mut out = encode_sparse_merkle_proof(&p.state_proof);
    let ek = bcs_byte_vec_bytes(&p.element_key.bytes);
    append_bytes(&mut out, &ek);
    let eh = bcs_byte_vec_bytes(&p.element_hash.bytes);
    append_bytes(&mut out, &eh);
    let tp = encode_accumulator_proof(&p.transaction_proof);
    append_bytes(&mut out, &tp);
    let ti = encode_transaction_info(&p.transaction);
    append_bytes(&mut out, &ti);
    let tv = bcs_u64_bytes(p.transaction_index);
    append_bytes(&mut out, &tv);
    let li = encode_ledger_info_with_signatures(&p.ledger_info_v0);
    append_bytes(&mut out, &li);
    let vv = encode_validator_verifier(&p.validator_verifier);
    append_bytes(&mut out, &vv);
    proof {
        assert(out@ =~= account_proof_payload_bytes(p@));
    }
    out
}

/// An epoch-change proof bundled with the trusted anchor it chains from.
pub struct EpochChangeProofPayload {
    pub epoch_change_proof: EpochChangeProof,
    pub trusted_state: TrustedState,
}

/// Canonical encoding of the bundle: the proof, then the anchor.
pub open spec fn epoch_change_proof_payload_bytes(
    change_proof: EpochChangeProofView,
    anchor: TrustedStateView,
) -> Seq<u8> {
    epoch_change_proof_bytes(change_proof) + trusted_state_bytes(anchor)
}

/// Serializes an epoch-change proof bundle.
pub fn encode_epoch_change_proof_payload(p: &EpochChangeProofPayload) -> (r: Vec<u8>)
    requires
        p.epoch_change_proof.wf(),
        p.trusted_state.wf(),
    ensures
        r@ == epoch_change_proof_payload_bytes(p.epoch_change_proof@, p.trusted_state@),
{
    let mut out = encode_epoch_change_proof(&p.epoch_change_proof);
    let anchor = encode_trusted_state(&p.trusted_state);
    append_bytes(&mut out, &anchor);
    out
}

/// The API for retrieving individual state, with the ledger store it reads
/// from injected as an explicit handle.
pub struct StateApi {
    pub store: LedgerStore,
}

/// Whether `v` lies within the retention window of `s`.
pub open spec fn version_in_window(s: LedgerStore, v: u64) -> bool {
    s.oldest_version <= v <= s.latest_version_spec()
}

/// The version a request resolves to.
pub open spec fn resolved_version(s: LedgerStore, requested: Option<u64>) -> u64 {
    match requested {
        None => s.latest_version_spec(),
        Some(v) => v,
    }
}

/// Whether version resolution succeeds.
pub open spec fn resolves(s: LedgerStore, requested: Option<u64>) -> bool {
    match requested {
        None => true,
        Some(v) => version_in_window(s, v),
    }
}

/// The cause reported when a requested version lies outside the window.
pub open spec fn out_of_window_cause(s: LedgerStore, v: u64) -> ErrorCause {
    if v < s.oldest_version {
        ErrorCause::VersionPruned { requested: v, oldest: s.oldest_version }
    } else {
        ErrorCause::VersionTooNew { requested: v, latest: s.latest_version_spec() }
    }
}

/// The outcome every operation reports when resolution fails: gone, with
/// the snapshot attached.
pub open spec fn is_gone_error(
    s: LedgerStore,
    requested: Option<u64>,
    e: StateApiError,
) -> bool {
    &&& e.wf()
    &&& e.kind == ErrorKind::Gone
    &&& e.cause == out_of_window_cause(s, resolved_version(s, requested))
    &&& e.ledger_info == Some(s.snapshot_spec())
}

impl StateApi {
    /// Reads a resource of type `resource_type` under `address` at the
    /// resolved version. The decoded format returns the typed value; the
    /// raw format returns the exact on-ledger bytes.
    pub fn resource(
        &self,
        accept_type: &AcceptType,
        address: &Address,
        resource_type: &StructTag,
        ledger_version: Option<u64>,
    ) -> (r: Result<BasicResponse<MoveResource>, StateApiError>)
        requires
            self.store.wf(),
            address.wf(),
            resource_type.wf(),
        ensures
            ({
                let s = self.store;
                let valid = is_valid_identifier(resource_type.module@) && is_valid_identifier(
                    resource_type.name@,
                );
                let v = resolved_version(s, ledger_version);
                let key = state_key_bytes(
                    StateKey::AccountResource { address: *address, tag: *resource_type },
                );
                &&& (!valid ==> (r matches Err(e) && e.wf() && e.cause == (
                ErrorCause::InvalidIdentifier { operation: Operation::GetResource })
                    && e.ledger_info is None))
                &&& (valid && !resolves(s, ledger_version) ==> (r matches Err(e) && is_gone_error(
                    s,
                    ledger_version,
                    e,
                )))
                &&& (valid && resolves(s, ledger_version) ==> match latest_write(s.writes@, key, v) {
                    None => r matches Err(e) && e.wf() && e.ledger_info == Some(s.snapshot_spec())
                        && (e.cause matches ErrorCause::ResourceNotFound {
                        address: a,
                        tag: t,
                        version: ev,
                    } && a@ == address@ && t.module@ == resource_type.module@ && t.name@
                        == resource_type.name@ && t.address@ == resource_type.address@ && ev == v),
                    Some(w) => {
                        &&& (*accept_type == AcceptType::Bcs ==> (r matches Ok(resp)
                            && resp.ledger_info == s.snapshot_spec() && (
                        resp.payload matches ResponsePayload::Bcs(b) && b@ == w.value.data@)))
                        &&& (*accept_type == AcceptType::Json ==> match find_layout(
                            s.resource_layouts@,
                            state_key_bytes(
                                StateKey::AccountResource {
                                    address: *address,
                                    tag: *resource_type,
                                },
                            ),
                        ) {
                            None => r matches Err(e) && e.wf() && e.kind == ErrorKind::Internal
                                && e.cause == (ErrorCause::MissingLayout {}) && e.ledger_info
                                == Some(s.snapshot_spec()),
                            Some(layout) => {
                                &&& (r matches Ok(resp) ==> resp.ledger_info == s.snapshot_spec()
                                    && (resp.payload matches ResponsePayload::Json(res)
                                    && res.tag.address@ == resource_type.address@
                                    && res.tag.module@ == resource_type.module@ && res.tag.name@
                                    == resource_type.name@ && conforms(res.data, layout)
                                    && value_wf(res.data) && value_bytes(res.data)
                                    == w.value.data@))
                                &&& (r matches Err(e) ==> e.wf() && e.kind == ErrorKind::Internal
                                    && e.cause == (ErrorCause::ValueDecodeFailure { version: v })
                                    && e.ledger_info == Some(s.snapshot_spec()) && !(exists|
                                    val: MoveValueData,
                                |
                                    conforms(val, layout) && value_wf(val) && value_bytes(val)
                                        == w.value.data@))
                            },
                        })
                    },
                })
            }),
    {
        if !(verify_identifier(&resource_type.module) && verify_identifier(&resource_type.name)) {
            return Err(
                StateApiError::new(
                    ErrorCause::InvalidIdentifier { operation: Operation::GetResource },
                ),
            );
        }
        let (ledger_info, version) = match self.store.state_view(ledger_version) {
            Ok(p) => p,
            Err(e) => {
                return Err(e);
            },
        };
        let state_key = StateKey::AccountResource {
            address: address.clone(),
            tag: resource_type.clone(),
        };
        let key = encode_state_key(&state_key);
        let bytes = match self.store.get_state_value_bytes(&key, version) {
            Some(b) => b,
            None => {
                return Err(
                    StateApiError::with_ledger_info(
                        ErrorCause::ResourceNotFound {
                            address: address.clone(),
                            tag: resource_type.clone(),
                            version,
                        },
                        ledger_info,
                    ),
                );
            },
        };
        match accept_type {
            AcceptType::Json => {
                let layout = match self.store.get_resource_layout(&key) {
                    Some(l) => l,
                    None => {
                        return Err(
                            StateApiError::with_ledger_info(
                                ErrorCause::MissingLayout {},
                                ledger_info,
                            ),
                        );
                    },
                };
                let data = match decode_move_value_exact(layout, &bytes) {
                    Some(d) => d,
                    None => {
                        return Err(
                            StateApiError::with_ledger_info(
                                ErrorCause::ValueDecodeFailure { version },
                                ledger_info,
                            ),
                        );
                    },
                };
                let res = MoveResource { tag: resource_type.clone(), data };
                Ok(BasicResponse::from_json(res, ledger_info))
            },
            AcceptType::Bcs => Ok(BasicResponse::from_encoded(bytes, ledger_info)),
        }
    }

    /// Reads the module named `name` under `address` at the resolved
    /// version. Both formats carry the bytecode; parsing the ABI for the
    /// decoded format is the virtual machine collaborator's work.
    pub fn module(
        &self,
        accept_type: &AcceptType,
        address: &Address,
        name: &Vec<u8>,
        ledger_version: Option<u64>,
    ) -> (r: Result<BasicResponse<MoveModuleBytecode>, StateApiError>)
        requires
            self.store.wf(),
            address.wf(),
            name@.len() < 0x8000_0000,
        ensures
            ({
                let s = self.store;
                let valid = is_valid_identifier(name@);
                let v = resolved_version(s, ledger_version);
                let key = state_key_bytes(StateKey::Module { address: *address, name: *name });
                &&& (!valid ==> (r matches Err(e) && e.wf() && e.cause == (
                ErrorCause::InvalidIdentifier { operation: Operation::GetModule }) && e.ledger_info
                    is None))
                &&& (valid && !resolves(s, ledger_version) ==> (r matches Err(e) && is_gone_error(
                    s,
                    ledger_version,
                    e,
                )))
                &&& (valid && resolves(s, ledger_version) ==> match latest_write(s.writes@, key, v) {
                    None => r matches Err(e) && e.wf() && e.ledger_info == Some(s.snapshot_spec())
                        && (e.cause matches ErrorCause::ModuleNotFound {
                        address: a,
                        name: n,
                        version: ev,
                    } && a@ == address@ && n@ == name@ && ev == v),
                    Some(w) => r matches Ok(resp) && resp.ledger_info == s.snapshot_spec() && (
                    match *accept_type {
                        AcceptType::Bcs => resp.payload matches ResponsePayload::Bcs(b) && b@
                            == w.value.data@,
                        AcceptType::Json => resp.payload matches ResponsePayload::Json(m)
                            && m.bytecode@ == w.value.data@,
                    }),
                })
            }),
    {
        if !verify_identifier(name) {
            return Err(
                StateApiError::new(
                    ErrorCause::InvalidIdentifier { operation: Operation::GetModule },
                ),
            );
        }
        let (ledger_info, version) = match self.store.state_view(ledger_version) {
            Ok(p) => p,
            Err(e) => {
                return Err(e);
            },
        };
        let state_key = StateKey::Module {
            address: address.clone(),
            name: crate::bytes::copy_bytes(name),
        };
        let key = encode_state_key(&state_key);
        let bytes = match self.store.get_state_value_bytes(&key, version) {
            Some(b) => b,
            None => {
                return Err(
                    StateApiError::with_ledger_info(
                        ErrorCause::ModuleNotFound {
                            address: address.clone(),
                            name: crate::bytes::copy_bytes(name),
                            version,
                        },
                        ledger_info,
                    ),
                );
            },
        };
        match accept_type {
            AcceptType::Json => {
                let m = MoveModuleBytecode { bytecode: bytes };
                Ok(BasicResponse::from_json(m, ledger_info))
            },
            AcceptType::Bcs => Ok(BasicResponse::from_encoded(bytes, ledger_info)),
        }
    }

    /// Reads the entry of the table `table_handle` under a typed key at the
    /// resolved version. The typed key must conform to its declared type;
    /// its canonical serialization is the lookup key.
    pub fn table_item(
        &self,
        accept_type: &AcceptType,
        table_handle: &Address,
        table_item_request: &TableItemRequest,
        ledger_version: Option<u64>,
    ) -> (r: Result<BasicResponse<MoveValueData>, StateApiError>)
        requires
            self.store.wf(),
            table_handle.wf(),
        ensures
            ({
                let s = self.store;
                let req = *table_item_request;
                let valid = conforms(req.key, req.key_type) && value_wf(req.key) && value_bytes(
                    req.key,
                ).len() < 0x8000_0000;
                let v = resolved_version(s, ledger_version);
                &&& (!valid ==> (r matches Err(e) && e.wf() && e.cause == (
                ErrorCause::InvalidTableKey {})))
                &&& (valid && !resolves(s, ledger_version) ==> (r matches Err(e) && is_gone_error(
                    s,
                    ledger_version,
                    e,
                )))
                &&& (valid && resolves(s, ledger_version) ==> {
                    let key = seq![2u8] + table_handle@ + length_prefixed(value_bytes(req.key));
                    match latest_write(s.writes@, key, v) {
                        None => r matches Err(e) && e.wf() && e.ledger_info == Some(
                            s.snapshot_spec(),
                        ) && (e.cause matches ErrorCause::TableItemNotFound {
                            handle: h,
                            key: k,
                            version: ev,
                        } && h@ == table_handle@ && k@ == value_bytes(req.key) && ev == v),
                        Some(w) => {
                            &&& (*accept_type == AcceptType::Bcs ==> (r matches Ok(resp)
                                && resp.ledger_info == s.snapshot_spec() && (
                            resp.payload matches ResponsePayload::Bcs(b) && b@ == w.value.data@)))
                            &&& (*accept_type == AcceptType::Json ==> {
                                &&& (r matches Ok(resp) ==> resp.ledger_info == s.snapshot_spec()
                                    && (resp.payload matches ResponsePayload::Json(val) && conforms(
                                    val,
                                    req.value_type,
                                ) && value_wf(val) && value_bytes(val) == w.value.data@))
                                &&& (r matches Err(e) ==> e.wf() && e.kind == ErrorKind::Internal
                                    && e.cause == (ErrorCause::ValueDecodeFailure { version: v })
                                    && e.ledger_info == Some(s.snapshot_spec()) && !(exists|
                                    val: MoveValueData,
                                |
                                    conforms(val, req.value_type) && value_wf(val) && value_bytes(
                                        val,
                                    ) == w.value.data@))
                            })
                        },
                    }
                })
            }),
    {
        if !check_value(&table_item_request.key, &table_item_request.key_type) {
            return Err(StateApiError::new(ErrorCause::InvalidTableKey {}));
        }
        let raw_key = encode_move_value(&table_item_request.key);
        if raw_key.len() >= 0x8000_0000 {
            return Err(StateApiError::new(ErrorCause::InvalidTableKey {}));
        }
        let (ledger_info, version) = match self.store.state_view(ledger_version) {
            Ok(p) => p,
            Err(e) => {
                return Err(e);
            },
        };
        let state_key = StateKey::TableItem {
            handle: table_handle.clone(),
            key: crate::bytes::copy_bytes(&raw_key),
        };
        let key = encode_state_key(&state_key);
        let bytes = match self.store.get_state_value_bytes(&key, version) {
            Some(b) => b,
            None => {
                return Err(
                    StateApiError::with_ledger_info(
                        ErrorCause::TableItemNotFound {
                            handle: table_handle.clone(),
                            key: raw_key,
                            version,
                        },
                        ledger_info,
                    ),
                );
            },
        };
        match accept_type {
            AcceptType::Json => {
                match decode_move_value_exact(&table_item_request.value_type, &bytes) {
                    Some(val) => Ok(BasicResponse::from_json(val, ledger_info)),
                    None => Err(
                        StateApiError::with_ledger_info(
                            ErrorCause::ValueDecodeFailure { version },
                            ledger_info,
                        ),
                    ),
                }
            },
            AcceptType::Bcs => Ok(BasicResponse::from_encoded(bytes, ledger_info)),
        }
    }

    /// Reads the entry of the table `table_handle` under an already
    /// serialized key. This operation serves only the raw format: the
    /// decoded format fails before any resolution or decoding is attempted.
    pub fn raw_table_item(
        &self,
        accept_type: &AcceptType,
        table_handle: &Address,
        table_item_request: &RawTableItemRequest,
        ledger_version: Option<u64>,
    ) -> (r: Result<BasicResponse<MoveValueData>, StateApiError>)
        requires
            self.store.wf(),
            table_handle.wf(),
            table_item_request.key@.len() < 0x8000_0000,
        ensures
            ({
                let s = self.store;
                let v = resolved_version(s, ledger_version);
                let key = seq![2u8] + table_handle@ + length_prefixed(table_item_request.key@);
                &&& (*accept_type == AcceptType::Json ==> (r matches Err(e) && e.wf() && e.kind
                    == ErrorKind::FormatNotSupported && e.cause == (ErrorCause::RawFormatOnly {
                    operation: Operation::GetRawTableItem,
                }) && e.ledger_info is None))
                &&& (*accept_type == AcceptType::Bcs && !resolves(s, ledger_version) ==> (r matches
                    Err(e) && is_gone_error(s, ledger_version, e)))
                &&& (*accept_type == AcceptType::Bcs && resolves(s, ledger_version) ==> match
                    latest_write(s.writes@, key, v) {
                    None => r matches Err(e) && e.wf() && e.ledger_info == Some(s.snapshot_spec())
                        && (e.cause matches ErrorCause::TableItemNotFound {
                        handle: h,
                        key: k,
                        version: ev,
                    } && h@ == table_handle@ && k@ == table_item_request.key@ && ev == v),
                    Some(w) => r matches Ok(resp) && resp.ledger_info == s.snapshot_spec() && (
                    resp.payload matches ResponsePayload::Bcs(b) && b@ == w.value.data@),
                })
            }),
    {
        if matches!(accept_type, AcceptType::Json) {
            return Err(
                StateApiError::new(
                    ErrorCause::RawFormatOnly { operation: Operation::GetRawTableItem },
                ),
            );
        }
        let (ledger_info, version) = match self.store.state_view(ledger_version) {
            Ok(p) => p,
            Err(e) => {
                return Err(e);
            },
        };
        let state_key = StateKey::TableItem {
            handle: table_handle.clone(),
            key: crate::bytes::copy_bytes(&table_item_request.key),
        };
        let key = encode_state_key(&state_key);
        match self.store.get_state_value_bytes(&key, version) {
            Some(b) => Ok(BasicResponse::from_encoded(b, ledger_info)),
            None => Err(
                StateApiError::with_ledger_info(
                    ErrorCause::TableItemNotFound {
                        handle: table_handle.clone(),
                        key: crate::bytes::copy_bytes(&table_item_request.key),
                        version,
                    },
                    ledger_info,
                ),
            ),
        }
    }

    /// Reads the state value under a caller-supplied serialized state key at
    /// the resolved version, returning its canonical serialization. The key
    /// must be a canonical state-key encoding; anything else is malformed
    /// caller input and fails before any ledger read. This operation serves
    /// only the raw format.
    pub fn raw_value(
        &self,
        accept_type: &AcceptType,
        request: &RawStateValueRequest,
        ledger_version: Option<u64>,
    ) -> (r: Result<BasicResponse<MoveValueData>, StateApiError>)
        requires
            self.store.wf(),
        ensures
            ({
                let s = self.store;
                let v = resolved_version(s, ledger_version);
                let canonical = exists|k: StateKey| k.wf() && state_key_bytes(k) == request.key@;
                &&& (*accept_type == AcceptType::Json ==> (r matches Err(e) && e.wf() && e.kind
                    == ErrorKind::FormatNotSupported && e.cause == (ErrorCause::RawFormatOnly {
                    operation: Operation::GetRawStateValue,
                }) && e.ledger_info is None))
                &&& (*accept_type == AcceptType::Bcs && !canonical ==> (r matches Err(e) && e.wf()
                    && e.kind == ErrorKind::BadInput && e.cause == (
                ErrorCause::StateKeyDecodeFailure {}) && e.ledger_info is None))
                &&& (*accept_type == AcceptType::Bcs && canonical && !resolves(s, ledger_version)
                    ==> (r matches Err(e) && is_gone_error(s, ledger_version, e)))
                &&& (*accept_type == AcceptType::Bcs && canonical && resolves(s, ledger_version)
                    ==> match latest_write(s.writes@, request.key@, v) {
                    Some(w) => r matches Ok(resp) && resp.ledger_info == s.snapshot_spec() && (
                    resp.payload matches ResponsePayload::Bcs(b) && b@ == state_value_bytes(
                        w.value@,
                    )),
                    None => r matches Err(e) && e.wf() && e.ledger_info == Some(s.snapshot_spec())
                        && (e.cause matches ErrorCause::StateValueNotFound { key: k2, version: ev }
                        && k2@ == request.key@ && ev == v),
                })
            }),
    {
        if matches!(accept_type, AcceptType::Json) {
            return Err(
                StateApiError::new(
                    ErrorCause::RawFormatOnly { operation: Operation::GetRawStateValue },
                ),
            );
        }
        let state_key = match decode_state_key(&request.key) {
            Some(k) => k,
            None => {
                return Err(StateApiError::new(ErrorCause::StateKeyDecodeFailure {}));
            },
        };
        proof {
            assert(state_key.wf() && state_key_bytes(state_key) == request.key@);
        }
        let (ledger_info, version) = match self.store.state_view(ledger_version) {
            Ok(p) => p,
            Err(e) => {
                return Err(e);
            },
        };
        let key = encode_state_key(&state_key);
        let value = match self.store.get_state_value(&key, version) {
            Some(val) => val,
            None => {
                return Err(
                    StateApiError::with_ledger_info(
                        ErrorCause::StateValueNotFound {
                            key: crate::bytes::copy_bytes(&request.key),
                            version,
                        },
                        ledger_info,
                    ),
                );
            },
        };
        proof {
            lemma_latest_write_is_member(self.store.writes@, key@, version);
            let w = latest_write(self.store.writes@, key@, version)->0;
            let i = choose|i: int| 0 <= i < self.store.writes@.len() && self.store.writes@[i] == w;
            assert(self.store.writes@[i].wf());
        }
        let bytes = encode_state_value(&value);
        Ok(BasicResponse::from_encoded(bytes, ledger_info))
    }
}

impl StateApi {
    /// Assembles the full account evidence chain: the state-inclusion proof
    /// for the canonical account resource, the transaction and its
    /// accumulator proof at the same version, the latest signed checkpoint
    /// and its validator set. The state proof and the transaction are bound
    /// to one and the same version. This operation serves only the raw
    /// format.
    pub fn account_proof(
        &self,
        accept_type: &AcceptType,
        address: &Address,
        block_height: Option<u64>,
    ) -> (r: Result<BasicResponse<Vec<u8>>, StateApiError>)
        requires
            self.store.wf(),
            address.wf(),
        ensures
            ({
                let s = self.store;
                &&& (*accept_type == AcceptType::Json ==> (r matches Err(e) && e.wf() && e.kind
                    == ErrorKind::FormatNotSupported && e.cause == (ErrorCause::RawFormatOnly {
                    operation: Operation::GetAccountProof,
                }) && e.ledger_info is None))
                &&& (*accept_type == AcceptType::Bcs ==> {
                    let height_ok = match block_height {
                        None => true,
                        Some(h) => h < s.blocks@.len(),
                    };
                    let tv = match block_height {
                        None => s.latest_version_spec(),
                        Some(h) => s.blocks@[h as int].last_version,
                    };
                    &&& (!height_ok ==> (r matches Err(e) && e.wf() && e.kind == ErrorKind::NotFound
                        && (e.cause matches ErrorCause::BlockNotFound { height } && Some(height)
                        == block_height) && e.ledger_info == Some(s.snapshot_spec())))
                    &&& (height_ok ==> match latest_write(
                        s.writes@,
                        account_resource_key_spec(address@),
                        tv,
                    ) {
                        None => r matches Err(e) && e.wf() && e.kind == ErrorKind::NotFound && (
                        e.cause matches ErrorCause::AccountStateNotFound { address: a, version }
                            && a@ == address@ && version == tv) && e.ledger_info == Some(
                            s.snapshot_spec(),
                        ),
                        Some(w) => r matches Ok(resp) && resp.ledger_info == s.snapshot_spec() && (
                        resp.payload matches ResponsePayload::Bcs(b) && b@
                            == account_proof_payload_bytes(
                            AccountProofPayloadView {
                                state_proof: w.proof@,
                                element_key: w.key_hash@,
                                element_hash: w.value.hash@,
                                transaction_proof: s.txns@[tv as int].ledger_info_to_transaction_info_proof@,
                                transaction: s.txns@[tv as int].info@,
                                transaction_index: tv,
                                ledger_info_v0: s.latest_li@,
                                validator_verifier: s.latest_epoch_state.verifier@,
                            },
                        )),
                    })
                })
            }),
    {
        if matches!(accept_type, AcceptType::Json) {
            return Err(
                StateApiError::new(
                    ErrorCause::RawFormatOnly { operation: Operation::GetAccountProof },
                ),
            );
        }
        let (ledger_info, ledger_version) = match self.store.state_view(None) {
            Ok(p) => p,
            Err(_) => {
                return vstd::pervasive::unreached();
            },
        };
        let tx_version = match block_height {
            Some(h) => {
                match self.store.get_block_by_height(h) {
                    Some(b) => b.last_version,
                    None => {
                        return Err(
                            StateApiError::with_ledger_info(
                                ErrorCause::BlockNotFound { height: h },
                                ledger_info,
                            ),
                        );
                    },
                }
            },
            None => ledger_version,
        };
        let latest_li_w_sig = self.store.get_latest_ledger_info_with_signatures();
        let account_key = account_resource_key(address);
        let key = encode_state_key(&account_key);
        let (value, element_key, state_proof) = match self.store.get_state_value_with_proof_by_version(
            &key,
            tx_version,
        ) {
            Some(t) => t,
            None => {
                return Err(
                    StateApiError::with_ledger_info(
                        ErrorCause::AccountStateNotFound {
                            address: address.clone(),
                            version: tx_version,
                        },
                        ledger_info,
                    ),
                );
            },
        };
        proof {
            lemma_latest_write_is_member(self.store.writes@, key@, tx_version);
            let w = latest_write(self.store.writes@, key@, tx_version)->0;
            let i = choose|i: int|
                0 <= i < self.store.writes@.len() && self.store.writes@[i] == w;
            assert(self.store.writes@[i].wf());
        }
        let txn = match self.store.get_transaction_by_version(tx_version) {
            Some(t) => t,
            None => {
                return vstd::pervasive::unreached();
            },
        };
        let payload = AccountProofPayload {
            state_proof,
            element_key,
            element_hash: value.hash,
            transaction_proof: txn.ledger_info_to_transaction_info_proof.clone(),
            transaction: txn.info.clone(),
            transaction_index: tx_version,
            ledger_info_v0: latest_li_w_sig,
            validator_verifier: self.store.get_latest_epoch_state().verifier.clone(),
        };
        let bytes = encode_account_proof_payload(&payload);
        Ok(BasicResponse::from_encoded(bytes, ledger_info))
    }

    /// Assembles the epoch-change evidence for the requested epoch (or the
    /// latest one): the two checkpoints ending epochs `epoch - 2` and
    /// `epoch - 1`; the earlier anchors a trusted state for `epoch - 1`
    /// through its embedded next-epoch validator set, and the later is
    /// returned as the proof chain. A store that cannot produce exactly two
    /// checkpoints is a ledger metadata inconsistency, reported as an
    /// internal error. This operation serves only the raw format.
    pub fn epoch_change_proof(&self, accept_type: &AcceptType, epoch_number: Option<u64>) -> (r:
        Result<BasicResponse<Vec<u8>>, StateApiError>)
        requires
            self.store.wf(),
        ensures
            ({
                let s = self.store;
                let e = match epoch_number {
                    Some(n) => n,
                    None => s.latest_epoch_state.epoch,
                };
                let avail = s.epoch_endings@.len() as int;
                &&& (*accept_type == AcceptType::Json ==> (r matches Err(err) && err.wf()
                    && err.kind == ErrorKind::FormatNotSupported && err.cause == (
                ErrorCause::RawFormatOnly { operation: Operation::GetEpochChangeProof })
                    && err.ledger_info is None))
                &&& (*accept_type == AcceptType::Bcs && e < 2 ==> (r matches Err(err) && err.wf()
                    && err.kind == ErrorKind::BadInput && err.cause == (ErrorCause::EpochTooLow {
                    requested: e,
                }) && err.ledger_info == Some(s.snapshot_spec())))
                &&& (*accept_type == AcceptType::Bcs && 2 <= e && e <= avail ==> (r matches Ok(resp)
                    && resp.ledger_info == s.snapshot_spec() && (
                resp.payload matches ResponsePayload::Bcs(b) && b@
                    == epoch_change_proof_payload_bytes(
                    EpochChangeProofView {
                        ledger_info_with_sigs: seq![s.epoch_endings@[e - 1].info@],
                        more: false,
                    },
                    TrustedStateView {
                        variant: TRUSTED_STATE_EPOCH_STATE_VARIANT,
                        waypoint: WaypointView {
                            version: s.epoch_endings@[e
                                - 2].info.data.ledger_info.commit_info.version,
                            value: s.epoch_endings@[e - 2].hash@,
                        },
                        epoch_state: EpochStateView {
                            epoch: (e - 1) as u64,
                            verifier: s.epoch_endings@[e
                                - 2].info.data.ledger_info.commit_info.next_epoch_state->0.verifier@,
                        },
                    },
                ))))
                &&& (*accept_type == AcceptType::Bcs && 2 <= e && e > avail ==> (r matches Err(err)
                    && err.wf() && err.kind == ErrorKind::Internal && (
                err.cause matches ErrorCause::EpochChainViolation { returned, expected } && expected
                    == 2 && returned == (if e - 2 <= avail {
                    avail - (e - 2)
                } else {
                    0int
                })) && err.ledger_info == Some(s.snapshot_spec())))
            }),
    {
        if matches!(accept_type, AcceptType::Json) {
            return Err(
                StateApiError::new(
                    ErrorCause::RawFormatOnly { operation: Operation::GetEpochChangeProof },
                ),
            );
        }
        let (ledger_info, _) = match self.store.state_view(None) {
            Ok(p) => p,
            Err(_) => {
                return vstd::pervasive::unreached();
            },
        };
        let epoch = match epoch_number {
            Some(n) => n,
            None => self.store.get_latest_epoch_state().epoch,
        };
        if epoch < 2 {
            return Err(
                StateApiError::with_ledger_info(
                    ErrorCause::EpochTooLow { requested: epoch },
                    ledger_info,
                ),
            );
        }
        let available = self.store.epoch_endings.len();
        proof {
            assert(self.store.epoch_endings@.len() == available);
        }
        let (mut records, clipped) = self.store.get_epoch_ending_records(epoch - 2, epoch);
        if records.len() != 2 {
            return Err(
                StateApiError::with_ledger_info(
                    ErrorCause::EpochChainViolation {
                        returned: records.len() as u64,
                        expected: 2,
                    },
                    ledger_info,
                ),
            );
        }
        let second = match records.pop() {
            Some(rec) => rec,
            None => {
                return vstd::pervasive::unreached();
            },
        };
        let first = match records.pop() {
            Some(rec) => rec,
            None => {
                return vstd::pervasive::unreached();
            },
        };
        let next_epoch_state = match &first.info.data.ledger_info.commit_info.next_epoch_state {
            Some(es) => es.clone(),
            None => {
                return Err(
                    StateApiError::with_ledger_info(
                        ErrorCause::MissingNextEpochState { epoch: epoch - 2 },
                        ledger_info,
                    ),
                );
            },
        };
        let waypoint = Waypoint::new(
            first.info.data.ledger_info.commit_info.version,
            first.hash,
        );
        let trusted_state = TrustedState::new_epoch_state(
            waypoint,
            EpochState::new(epoch - 1, next_epoch_state.verifier),
        );
        let mut sigs: Vec<LedgerInfoWithSignatures> = Vec::new();
        sigs.push(second.info);
        let epoch_change = EpochChangeProof { ledger_info_with_sigs: sigs, more: clipped };
        proof {
            assert(epoch_change@.ledger_info_with_sigs =~= seq![
                self.store.epoch_endings@[epoch - 1].info@,
            ]);
        }
        let payload = EpochChangeProofPayload { epoch_change_proof: epoch_change, trusted_state };
        let bytes = encode_epoch_change_proof_payload(&payload);
        Ok(BasicResponse::from_encoded(bytes, ledger_info))
    }
}

/// The epoch-change chain law: whenever the epoch-change operation can
/// answer for epoch `e`, the trusted anchor it builds from the checkpoint
/// ending epoch `e - 2` carries the validator set of epoch `e - 1`, which is
/// exactly the epoch of the single checkpoint returned as the proof. That
/// set is the one responsible for signing the later checkpoint; checking the
/// signature itself is the cryptographic collaborator's work and happens
/// outside this core.
pub proof fn law_epoch_change_chain(s: LedgerStore, e: u64)
    requires
        s.wf(),
        2 <= e,
        e <= s.epoch_endings@.len(),
    ensures
        s.epoch_endings@[e - 2].info.data.ledger_info.commit_info.next_epoch_state is Some,
        s.epoch_endings@[e - 2].info.data.ledger_info.commit_info.next_epoch_state->0.epoch == e
            - 1,
        s.epoch_endings@[e - 1].info.data.ledger_info.commit_info.epoch == e - 1,
{
}

/// A write the lookup returns is a member of the log, so a well-formed
/// store only ever hands back well-formed records.
pub proof fn lemma_latest_write_is_member(writes: Seq<WriteRecord>, key: Seq<u8>, version: u64)
    requires
        latest_write(writes, key, version) is Some,
    ensures
        exists|i: int|
            0 <= i < writes.len() && writes[i] == latest_write(writes, key, version)->0,
    decreases writes.len(),
{
    let last = writes[writes.len() - 1];
    if last.key@ == key && last.version <= version {
        assert(writes[writes.len() - 1] == latest_write(writes, key, version)->0);
    } else {
        lemma_latest_write_is_member(writes.subrange(0, writes.len() - 1), key, version);
        let sub = writes.subrange(0, writes.len() - 1);
        let i = choose|i: int| 0 <= i < sub.len() && sub[i] == latest_write(sub, key, version)->0;
        assert(writes[i] == latest_write(writes, key, version)->0);
    }
}

} // verus!
