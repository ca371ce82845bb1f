use vstd::prelude::*;
use crate::bytes::{HashValue, copy_bytes, bytes_eq};
use crate::codec::{length_prefixed, bcs_u8_bytes, bcs_byte_vec_bytes, append_bytes};
use crate::error::{ErrorCause, StateApiError};
use crate::ledger_info::{EpochState, LedgerInfo, LedgerInfoWithSignatures};
use crate::move_value::MoveTypeLayout;
use crate::sparse_merkle_proof::SparseMerkleProof;
use crate::transaction::{TransactionAccumulatorProof, TransactionInfo};

verus! {

// ---------------------------------------------------------------------------
// The ledger store: an in-memory model of the versioned key-value ledger and
// its metadata, read-only for the lifetime of a request. Reads are pinned to
// the version resolved at the start of a request, so every read within one
// request observes the same committed state.
// ---------------------------------------------------------------------------

/// A stored state value: the raw bytes plus their content digest, as the
/// cryptographic collaborator computed it.
pub struct StateValue {
    pub data: Vec<u8>,
    pub hash: HashValue,
}

/// Spec-level image of a state value.
pub struct StateValueView {
    pub data: Seq<u8>,
    pub hash: Seq<u8>,
}

impl View for StateValue {
    type V = StateValueView;

    open spec fn view(&self) -> StateValueView {
        StateValueView { data: self.data@, hash: self.hash@ }
    }
}

impl StateValue {
    pub open spec fn wf(self) -> bool {
        self.data@.len() < 0x8000_0000 && self.hash.wf()
    }
}

impl Clone for StateValue {
    fn clone(&self) -> (r: Self)
        ensures
            r@ == self@,
            self.wf() ==> r.wf(),
    {
        StateValue { data: copy_bytes(&self.data), hash: self.hash.clone() }
    }
}

/// Canonical serialization of a state value: a version tag, then the
/// length-prefixed bytes.
pub open spec fn state_value_bytes(v: StateValueView) -> Seq<u8> {
    seq![0u8] + length_prefixed(v.data)
}

/// Serializes a state value.
pub fn encode_state_value(v: &StateValue) -> (r: Vec<u8>)
    requires
        v.wf(),
    ensures
        r@ == state_value_bytes(v@),
{
    let mut out = bcs_u8_bytes(0);
    let data = bcs_byte_vec_bytes(&v.data);
    append_bytes(&mut out, &data);
    proof {
        assert(out@ =~= state_value_bytes(v@));
    }
    out
}

/// One committed write: at `version` the entry under `key` became `value`.
/// The key digest and the inclusion proof for this version come from the
/// store's proof-generation primitive.
pub struct WriteRecord {
    pub version: u64,
    /// The canonical encoding of the state key.
    pub key: Vec<u8>,
    pub value: StateValue,
    /// Digest of the key, used as the element key of inclusion proofs.
    pub key_hash: HashValue,
    /// State-inclusion proof for this entry at this version.
    pub proof: SparseMerkleProof,
}

impl WriteRecord {
    pub open spec fn wf(self) -> bool {
        &&& self.key@.len() < 0x8000_0000
        &&& self.value.wf()
        &&& self.key_hash.wf()
        &&& self.proof.wf()
    }
}

/// The transaction record the store holds for each version.
pub struct TransactionRecord {
    pub info: TransactionInfo,
    /// Accumulator proof from the ledger checkpoint to this transaction.
    pub ledger_info_to_transaction_info_proof: TransactionAccumulatorProof,
}

impl TransactionRecord {
    pub open spec fn wf(self) -> bool {
        self.info.wf() && self.ledger_info_to_transaction_info_proof.wf()
    }
}

/// One block: the versions it spans.
#[derive(Clone, Copy, PartialEq, Eq, Structural)]
pub struct BlockRecord {
    pub first_version: u64,
    pub last_version: u64,
}

/// An epoch-ending signed checkpoint, together with its commitment digest
/// (computed by the cryptographic collaborator), which anchors waypoints.
pub struct EpochEndingRecord {
    pub info: LedgerInfoWithSignatures,
    pub hash: HashValue,
}

/// Spec-level image of an epoch-ending record.
pub struct EpochEndingRecordView {
    pub info: crate::ledger_info::LedgerInfoWithSignaturesView,
    pub hash: Seq<u8>,
}

impl View for EpochEndingRecord {
    type V = EpochEndingRecordView;

    open spec fn view(&self) -> EpochEndingRecordView {
        EpochEndingRecordView { info: self.info@, hash: self.hash@ }
    }
}

impl EpochEndingRecord {
    pub open spec fn wf(self) -> bool {
        self.info.wf() && self.hash.wf()
    }
}

impl Clone for EpochEndingRecord {
    fn clone(&self) -> (r: Self)
        ensures
            r@ == self@,
            self.wf() ==> r.wf(),
    {
        EpochEndingRecord { info: self.info.clone(), hash: self.hash.clone() }
    }
}

/// A type descriptor the store knows for a resource type, keyed by the
/// canonical encoding of the struct tag. This models the externally
/// supplied type information the decoded path needs.
pub struct ResourceLayout {
    pub tag: Vec<u8>,
    pub layout: MoveTypeLayout,
}

/// The first descriptor registered for `tag`.
pub open spec fn find_layout(layouts: Seq<ResourceLayout>, tag: Seq<u8>) -> Option<MoveTypeLayout>
    decreases layouts.len(),
{
    if layouts.len() == 0 {
        None
    } else if layouts[0].tag@ == tag {
        Some(layouts[0].layout)
    } else {
        find_layout(layouts.subrange(1, layouts.len() as int), tag)
    }
}

/// The most recent write to `key` at or before `version`, scanning the
/// append-only write log from its end.
pub open spec fn latest_write(writes: Seq<WriteRecord>, key: Seq<u8>, version: u64) -> Option<
    WriteRecord,
>
    decreases writes.len(),
{
    if writes.len() == 0 {
        None
    } else {
        let last = writes[writes.len() - 1];
        if last.key@ == key && last.version <= version {
            Some(last)
        } else {
            latest_write(writes.subrange(0, writes.len() - 1), key, version)
        }
    }
}

/// The in-memory ledger store model. All fields are read-only during a
/// request; tests substitute any store they like.
pub struct LedgerStore {
    pub chain_id: u8,
    /// The latest signed checkpoint; the snapshot's epoch, version and
    /// timestamp come from here.
    pub latest_li: LedgerInfoWithSignatures,
    /// Oldest version still retained; reads below it are gone.
    pub oldest_version: u64,
    pub block_height: u64,
    pub oldest_block_height: u64,
    /// The append-only write log, in version order.
    pub writes: Vec<WriteRecord>,
    /// One record per version; index is the version.
    pub txns: Vec<TransactionRecord>,
    /// Epoch-ending checkpoints; index is the epoch the record ends.
    pub epoch_endings: Vec<EpochEndingRecord>,
    /// Blocks by height.
    pub blocks: Vec<BlockRecord>,
    /// The epoch state of the latest epoch.
    pub latest_epoch_state: EpochState,
    /// Type descriptors for resource types, supplied by the decoder
    /// collaborator.
    pub resource_layouts: Vec<ResourceLayout>,
    /// The first version not affected by pruning, for diagnostics.
    pub first_viable_version: u64,
    /// The version of the latest state checkpoint, if any.
    pub latest_state_checkpoint: Option<u64>,
    /// The version of the last state snapshot taken at or before the latest
    /// version, if any.
    pub snapshot_before: Option<u64>,
}

impl LedgerStore {
    /// The latest committed version.
    pub open spec fn latest_version_spec(self) -> u64 {
        self.latest_li.data.ledger_info.commit_info.version
    }

    /// The snapshot this store resolves every request against.
    pub open spec fn snapshot_spec(self) -> LedgerInfo {
        LedgerInfo {
            chain_id: self.chain_id,
            epoch: self.latest_li.data.ledger_info.commit_info.epoch,
            ledger_version: self.latest_li.data.ledger_info.commit_info.version,
            oldest_ledger_version: self.oldest_version,
            block_height: self.block_height,
            oldest_block_height: self.oldest_block_height,
            ledger_timestamp: self.latest_li.data.ledger_info.commit_info.timestamp_usecs,
        }
    }

    /// Well-formedness of the store: pruning metadata is consistent, the
    /// write log is in version order and within bounds, every version has a
    /// transaction record, every epoch-ending record ends its own epoch and
    /// carries the next epoch's state.
    pub open spec fn wf(self) -> bool {
        &&& self.oldest_version <= self.latest_version_spec()
        &&& self.latest_li.wf()
        &&& self.latest_epoch_state.wf()
        &&& self.txns@.len() == self.latest_version_spec() + 1
        &&& forall|i: int| 0 <= i < self.txns@.len() ==> (#[trigger] self.txns@[i]).wf()
        &&& forall|i: int|
            0 <= i < self.writes@.len() ==> (#[trigger] self.writes@[i]).wf()
                && self.writes@[i].version <= self.latest_version_spec()
        &&& forall|i: int, j: int|
            0 <= i <= j < self.writes@.len() ==> (#[trigger] self.writes@[i]).version <= (
            #[trigger] self.writes@[j]).version
        &&& forall|i: int|
            0 <= i < self.blocks@.len() ==> (#[trigger] self.blocks@[i]).last_version
                <= self.latest_version_spec()
        &&& forall|e: int|
            0 <= e < self.epoch_endings@.len() ==> {
                let rec = #[trigger] self.epoch_endings@[e];
                &&& rec.wf()
                &&& rec.info.data.ledger_info.commit_info.epoch == e
                &&& rec.info.data.ledger_info.commit_info.next_epoch_state is Some
                &&& rec.info.data.ledger_info.commit_info.next_epoch_state->0.epoch == e + 1
            }
    }

    /// The latest committed version.
    pub fn latest_version(&self) -> (r: u64)
        ensures
            r == self.latest_version_spec(),
    {
        self.latest_li.data.ledger_info.commit_info.version
    }

    /// Builds the snapshot of the current ledger state.
    pub fn latest_ledger_info(&self) -> (r: LedgerInfo)
        ensures
            r == self.snapshot_spec(),
    {
        LedgerInfo::new(
            self.chain_id,
            &self.latest_li,
            self.oldest_version,
            self.oldest_block_height,
            self.block_height,
        )
    }

    /// Resolves the version a request reads at, against the retention
    /// window: an absent request means the latest version; a present one
    /// must lie between the oldest retained and the latest committed
    /// version, and is gone otherwise.
    pub fn state_view(&self, requested: Option<u64>) -> (r: Result<(LedgerInfo, u64), StateApiError>)
        ensures
            match requested {
                None => r matches Ok(p) && p.0 == self.snapshot_spec() && p.1
                    == self.latest_version_spec(),
                Some(v) => {
                    if self.oldest_version <= v <= self.latest_version_spec() {
                        r matches Ok(p) && p.0 == self.snapshot_spec() && p.1 == v
                    } else {
                        r matches Err(e) && e.wf() && e.ledger_info == Some(self.snapshot_spec())
                            && (if v < self.oldest_version {
                            e.cause == (ErrorCause::VersionPruned {
                                requested: v,
                                oldest: self.oldest_version,
                            })
                        } else {
                            e.cause == (ErrorCause::VersionTooNew {
                                requested: v,
                                latest: self.latest_version_spec(),
                            })
                        })
                    }
                },
            },
    {
        let li = self.latest_ledger_info();
        match requested {
            None => Ok((li, self.latest_version())),
            Some(v) => {
                if v < self.oldest_version {
                    Err(
                        StateApiError::with_ledger_info(
                            ErrorCause::VersionPruned { requested: v, oldest: self.oldest_version },
                            li,
                        ),
                    )
                } else if v > self.latest_version() {
                    Err(
                        StateApiError::with_ledger_info(
                            ErrorCause::VersionTooNew {
                                requested: v,
                                latest: self.latest_version(),
                            },
                            li,
                        ),
                    )
                } else {
                    Ok((li, v))
                }
            },
        }
    }

    /// Looks up the most recent write to `key` at or before `version`,
    /// returning its index in the write log.
    #[verifier::loop_isolation(false)]
    fn find_write(&self, key: &Vec<u8>, version: u64) -> (r: Option<usize>)
        ensures
            match r {
                Some(i) => {
                    &&& i < self.writes@.len()
                    &&& latest_write(self.writes@, key@, version) == Some(self.writes@[i as int])
                },
                None => latest_write(self.writes@, key@, version) is None,
            },
    {
        let mut i: usize = self.writes.len();
        proof {
            assert(self.writes@.subrange(0, i as int) =~= self.writes@);
        }
        while i > 0
            invariant
                0 <= i <= self.writes@.len(),
                latest_write(self.writes@, key@, version) == latest_write(
                    self.writes@.subrange(0, i as int),
                    key@,
                    version,
                ),
            decreases i,
        {
            let w = &self.writes[i - 1];
            proof {
                assert(self.writes@.subrange(0, i as int).subrange(0, i - 1) =~= self.writes@
                    .subrange(0, i - 1));
                assert(self.writes@.subrange(0, i as int)[i - 1] == self.writes@[i - 1]);
            }
            if w.version <= version && bytes_eq(&w.key, key) {
                return Some(i - 1);
            }
            i -= 1;
        }
        proof {
            assert(self.writes@.subrange(0, 0) =~= Seq::<WriteRecord>::empty());
        }
        None
    }

    /// Fetches the raw bytes of the entry under `key` at `version`; absent
    /// when the key has never been written as of that version.
    pub fn get_state_value_bytes(&self, key: &Vec<u8>, version: u64) -> (r: Option<Vec<u8>>)
        ensures
            match latest_write(self.writes@, key@, version) {
                Some(w) => r matches Some(b) && b@ == w.value.data@,
                None => r is None,
            },
    {
        match self.find_write(key, version) {
            Some(i) => Some(copy_bytes(&self.writes[i].value.data)),
            None => None,
        }
    }

    /// Fetches the state value (bytes and content digest) under `key` at
    /// `version`.
    pub fn get_state_value(&self, key: &Vec<u8>, version: u64) -> (r: Option<StateValue>)
        ensures
            match latest_write(self.writes@, key@, version) {
                Some(w) => r matches Some(v) && v@ == w.value@ && (w.value.wf() ==> v.wf()),
                None => r is None,
            },
    {
        match self.find_write(key, version) {
            Some(i) => Some(self.writes[i].value.clone()),
            None => None,
        }
    }

    /// Fetches the state value under `key` at `version` together with the
    /// key digest and the state-inclusion proof the store generated for it.
    pub fn get_state_value_with_proof_by_version(&self, key: &Vec<u8>, version: u64) -> (r: Option<
        (StateValue, HashValue, SparseMerkleProof),
    >)
        ensures
            match latest_write(self.writes@, key@, version) {
                Some(w) => r matches Some(p) && p.0@ == w.value@ && p.1@ == w.key_hash@ && p.2@
                    == w.proof@ && (w.wf() ==> (p.0.wf() && p.1.wf() && p.2.wf())),
                None => r is None,
            },
    {
        match self.find_write(key, version) {
            Some(i) => {
                let w = &self.writes[i];
                Some((w.value.clone(), w.key_hash.clone(), w.proof.clone()))
            },
            None => None,
        }
    }

    /// Fetches the transaction record for a version.
    pub fn get_transaction_by_version(&self, version: u64) -> (r: Option<&TransactionRecord>)
        ensures
            version < self.txns@.len() ==> (r matches Some(t) && *t == self.txns@[version as int]),
            version >= self.txns@.len() ==> r is None,
    {
        if version < self.txns.len() as u64 {
            Some(&self.txns[version as usize])
        } else {
            None
        }
    }

    /// Fetches the block at a height.
    pub fn get_block_by_height(&self, height: u64) -> (r: Option<BlockRecord>)
        ensures
            height < self.blocks@.len() ==> r == Some(self.blocks@[height as int]),
            height >= self.blocks@.len() ==> r is None,
    {
        if height < self.blocks.len() as u64 {
            Some(self.blocks[height as usize])
        } else {
            None
        }
    }

    /// Fetches the epoch-ending checkpoints for epochs `start..end`,
    /// clipped to what the store has; the flag says whether the range was
    /// clipped.
    #[verifier::loop_isolation(false)]
    pub fn get_epoch_ending_records(&self, start: u64, end: u64) -> (r: (
        Vec<EpochEndingRecord>,
        bool,
    ))
        requires
            start <= end,
        ensures
            ({
                let avail = self.epoch_endings@.len() as u64;
                let stop = if end <= avail {
                    end
                } else {
                    avail
                };
                &&& r.1 == (avail < end)
                &&& (start <= stop ==> r.0@.len() == stop - start && (forall|i: int|
                    0 <= i < r.0@.len() ==> (#[trigger] r.0@[i])@ == self.epoch_endings@[start
                        + i]@ && (self.epoch_endings@[start + i].wf() ==> r.0@[i].wf())))
                &&& (start > stop ==> r.0@.len() == 0)
            }),
    {
        let avail = self.epoch_endings.len() as u64;
        let stop = if end <= avail {
            end
        } else {
            avail
        };
        let mut out: Vec<EpochEndingRecord> = Vec::new();
        if start < stop {
            let mut e: u64 = start;
            while e < stop
                invariant
                    start <= e <= stop,
                    out@.len() == e - start,
                    forall|i: int|
                        0 <= i < out@.len() ==> (#[trigger] out@[i])@ == self.epoch_endings@[start
                            + i]@ && (self.epoch_endings@[start + i].wf() ==> out@[i].wf()),
                decreases stop - e,
            {
                out.push(self.epoch_endings[e as usize].clone());
                e += 1;
            }
        }
        (out, avail < end)
    }

    /// Looks up the type descriptor for a resource type.
    #[verifier::loop_isolation(false)]
    pub fn get_resource_layout(&self, tag: &Vec<u8>) -> (r: Option<&MoveTypeLayout>)
        ensures
            match find_layout(self.resource_layouts@, tag@) {
                Some(l) => r matches Some(x) && *x == l,
                None => r is None,
            },
    {
        let mut i: usize = 0;
        proof {
            assert(self.resource_layouts@.subrange(0, self.resource_layouts@.len() as int)
                =~= self.resource_layouts@);
        }
        while i < self.resource_layouts.len()
            invariant
                0 <= i <= self.resource_layouts@.len(),
                find_layout(self.resource_layouts@, tag@) == find_layout(
                    self.resource_layouts@.subrange(i as int, self.resource_layouts@.len() as int),
                    tag@,
                ),
            decreases self.resource_layouts@.len() - i,
        {
            proof {
                let rest = self.resource_layouts@.subrange(
                    i as int,
                    self.resource_layouts@.len() as int,
                );
                assert(rest[0] == self.resource_layouts@[i as int]);
                assert(rest.subrange(1, rest.len() as int) =~= self.resource_layouts@.subrange(
                    i + 1,
                    self.resource_layouts@.len() as int,
                ));
            }
            if bytes_eq(&self.resource_layouts[i].tag, tag) {
                return Some(&self.resource_layouts[i].layout);
            }
            i += 1;
        }
        proof {
            assert(self.resource_layouts@.subrange(
                self.resource_layouts@.len() as int,
                self.resource_layouts@.len() as int,
            ) =~= Seq::<ResourceLayout>::empty());
        }
        None
    }

    /// Fetches the epoch state of the latest epoch.
    pub fn get_latest_epoch_state(&self) -> (r: &EpochState)
        ensures
            *r == self.latest_epoch_state,
    {
        &self.latest_epoch_state
    }

    /// Fetches the latest signed checkpoint.
    pub fn get_latest_ledger_info_with_signatures(&self) -> (r: LedgerInfoWithSignatures)
        ensures
            r@ == self.latest_li@,
            r.variant == self.latest_li.variant,
            self.latest_li.wf() ==> r.wf(),
    {
        self.latest_li.clone()
    }
}

/// Read-your-writes: if the entry under `key` was written at index `i` of
/// the log with a version at or before `version`, and no later write to the
/// same key is visible at `version`, then the lookup returns exactly that
/// write.
pub proof fn lemma_latest_write_found(
    writes: Seq<WriteRecord>,
    key: Seq<u8>,
    version: u64,
    i: int,
)
    requires
        0 <= i < writes.len(),
        writes[i].key@ == key,
        writes[i].version <= version,
        forall|j: int|
            i < j < writes.len() ==> !((#[trigger] writes[j]).key@ == key && writes[j].version
                <= version),
    ensures
        latest_write(writes, key, version) == Some(writes[i]),
    decreases writes.len(),
{
    if i == writes.len() - 1 {
    } else {
        let last = writes[writes.len() - 1];
        assert(!(last.key@ == key && last.version <= version));
        assert(writes.subrange(0, writes.len() - 1)[i] == writes[i]);
        lemma_latest_write_found(writes.subrange(0, writes.len() - 1), key, version, i);
    }
}

/// A key never written as of `version` reads as absent.
pub proof fn lemma_latest_write_absent(writes: Seq<WriteRecord>, key: Seq<u8>, version: u64)
    requires
        forall|j: int|
            0 <= j < writes.len() ==> !((#[trigger] writes[j]).key@ == key && writes[j].version
                <= version),
    ensures
        latest_write(writes, key, version) is None,
    decreases writes.len(),
{
    if writes.len() > 0 {
        lemma_latest_write_absent(writes.subrange(0, writes.len() - 1), key, version);
    }
}

} // verus!
