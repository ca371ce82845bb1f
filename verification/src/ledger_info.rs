use vstd::prelude::*;
use crate::bytes::{HashValue, copy_bytes};
use crate::codec::{
    u64_le, uleb128, length_prefixed, concat_bytes, lemma_concat_bytes_push,
    bcs_u64_bytes, bcs_u8_bytes, bcs_byte_vec_bytes, append_bytes, encode_uleb128,
};

verus! {

// ---------------------------------------------------------------------------
// The resolved snapshot, and the signed-checkpoint family of types: a ledger
// info with signatures is the record the store hands back for the latest
// commit and for each epoch-ending checkpoint.
// ---------------------------------------------------------------------------

/// The resolved ledger snapshot: the metadata every response carries so the
/// caller can reason about staleness and the retention window.
#[derive(Clone, Copy, PartialEq, Eq, Structural, Debug)]
pub struct LedgerInfo {
    /// Chain ID of the current chain.
    pub chain_id: u8,
    pub epoch: u64,
    pub ledger_version: u64,
    pub oldest_ledger_version: u64,
    pub block_height: u64,
    pub oldest_block_height: u64,
    /// Timestamp of the ledger version, in microseconds.
    pub ledger_timestamp: u64,
}

impl LedgerInfo {
    pub fn epoch(&self) -> (r: u64)
        ensures
            r == self.epoch,
    {
        self.epoch
    }

    pub fn version(&self) -> (r: u64)
        ensures
            r == self.ledger_version,
    {
        self.ledger_version
    }

    pub fn oldest_version(&self) -> (r: u64)
        ensures
            r == self.oldest_ledger_version,
    {
        self.oldest_ledger_version
    }

    pub fn timestamp(&self) -> (r: u64)
        ensures
            r == self.ledger_timestamp,
    {
        self.ledger_timestamp
    }

    /// Builds the snapshot from a signed checkpoint and the pruning metadata.
    pub fn new(
        chain_id: u8,
        info: &LedgerInfoWithSignatures,
        oldest_ledger_version: u64,
        oldest_block_height: u64,
        block_height: u64,
    ) -> (r: LedgerInfo)
        ensures
            r.chain_id == chain_id,
            r.epoch == info.data.ledger_info.commit_info.epoch,
            r.ledger_version == info.data.ledger_info.commit_info.version,
            r.ledger_timestamp == info.data.ledger_info.commit_info.timestamp_usecs,
            r.oldest_ledger_version == oldest_ledger_version,
            r.oldest_block_height == oldest_block_height,
            r.block_height == block_height,
    {
        LedgerInfo {
            chain_id,
            epoch: info.data.ledger_info.commit_info.epoch,
            ledger_version: info.data.ledger_info.commit_info.version,
            oldest_ledger_version,
            block_height,
            oldest_block_height,
            ledger_timestamp: info.data.ledger_info.commit_info.timestamp_usecs,
        }
    }
}

/// One validator's account address, public key and voting power.
pub struct ValidatorConsensusInfo {
    pub address: Vec<u8>,
    pub public_key: Vec<u8>,
    pub voting_power: u64,
}

/// Spec-level image of a validator's consensus info.
pub struct ValidatorConsensusInfoView {
    pub address: Seq<u8>,
    pub public_key: Seq<u8>,
    pub voting_power: u64,
}

impl View for ValidatorConsensusInfo {
    type V = ValidatorConsensusInfoView;

    open spec fn view(&self) -> ValidatorConsensusInfoView {
        ValidatorConsensusInfoView {
            address: self.address@,
            public_key: self.public_key@,
            voting_power: self.voting_power,
        }
    }
}

impl ValidatorConsensusInfo {
    pub open spec fn wf(self) -> bool {
        self.address@.len() < 0x8000_0000 && self.public_key@.len() < 0x8000_0000
    }
}

impl Clone for ValidatorConsensusInfo {
    fn clone(&self) -> (r: Self)
        ensures
            r@ == self@,
            r.wf() == self.wf(),
    {
        ValidatorConsensusInfo {
            address: copy_bytes(&self.address),
            public_key: copy_bytes(&self.public_key),
            voting_power: self.voting_power,
        }
    }
}

/// The validator set that can verify signatures within one epoch.
pub struct ValidatorVerifier {
    /// Each validator's on-chain account address, public key and voting power.
    pub validator_infos: Vec<ValidatorConsensusInfo>,
}

impl View for ValidatorVerifier {
    type V = Seq<ValidatorConsensusInfoView>;

    open spec fn view(&self) -> Seq<ValidatorConsensusInfoView> {
        self.validator_infos@.map(|i: int, e: ValidatorConsensusInfo| e@)
    }
}

impl ValidatorVerifier {
    pub open spec fn wf(self) -> bool {
        &&& self.validator_infos@.len() < 0x8000_0000
        &&& forall|i: int|
            0 <= i < self.validator_infos@.len() ==> (#[trigger] self.validator_infos@[i]).wf()
    }
}

impl Clone for ValidatorVerifier {
    fn clone(&self) -> (r: Self)
        ensures
            r@ == self@,
            self.wf() ==> r.wf(),
    {
        let mut infos: Vec<ValidatorConsensusInfo> = Vec::new();
        let mut i: usize = 0;
        while i < self.validator_infos.len()
            invariant
                0 <= i <= self.validator_infos@.len(),
                infos@.len() == i,
                forall|j: int|
                    0 <= j < i ==> (#[trigger] infos@[j])@ == self.validator_infos@[j]@
                        && infos@[j].wf() == self.validator_infos@[j].wf(),
            decreases self.validator_infos@.len() - i,
        {
            infos.push(self.validator_infos[i].clone());
            i += 1;
        }
        let r = ValidatorVerifier { validator_infos: infos };
        proof {
            assert(r@ =~= self@);
            if self.wf() {
                assert forall|j: int|
                    0 <= j < r.validator_infos@.len() implies (
                #[trigger] r.validator_infos@[j]).wf() by {
                    assert(self.validator_infos@[j].wf());
                }
            }
        }
        r
    }
}

/// The epoch together with the validator set that governs it.
pub struct EpochState {
    pub epoch: u64,
    pub verifier: ValidatorVerifier,
}

/// Spec-level image of an epoch state.
pub struct EpochStateView {
    pub epoch: u64,
    pub verifier: Seq<ValidatorConsensusInfoView>,
}

impl View for EpochState {
    type V = EpochStateView;

    open spec fn view(&self) -> EpochStateView {
        EpochStateView { epoch: self.epoch, verifier: self.verifier@ }
    }
}

impl EpochState {
    pub open spec fn wf(self) -> bool {
        self.verifier.wf()
    }

    pub fn new(epoch: u64, verifier: ValidatorVerifier) -> (r: EpochState)
        ensures
            r.epoch == epoch,
            r.verifier@ == verifier@,
            r.wf() == verifier.wf(),
    {
        EpochState { epoch, verifier }
    }
}

impl Clone for EpochState {
    fn clone(&self) -> (r: Self)
        ensures
            r@ == self@,
            self.wf() ==> r.wf(),
    {
        EpochState { epoch: self.epoch, verifier: self.verifier.clone() }
    }
}

/// Aggregated signature of the validators that signed a checkpoint. The
/// bitmask says which validators signed.
pub struct AggregateSignature {
    pub validator_bitmask: Vec<u8>,
    pub sig: Option<Vec<u8>>,
}

/// Spec-level image of an aggregate signature.
pub struct AggregateSignatureView {
    pub validator_bitmask: Seq<u8>,
    pub sig: Option<Seq<u8>>,
}

impl View for AggregateSignature {
    type V = AggregateSignatureView;

    open spec fn view(&self) -> AggregateSignatureView {
        AggregateSignatureView {
            validator_bitmask: self.validator_bitmask@,
            sig: match self.sig {
                Some(s) => Some(s@),
                None => None,
            },
        }
    }
}

impl AggregateSignature {
    pub open spec fn wf(self) -> bool {
        &&& self.validator_bitmask@.len() < 0x8000_0000
        &&& self.sig matches Some(s) ==> s@.len() < 0x8000_0000
    }
}

impl Clone for AggregateSignature {
    fn clone(&self) -> (r: Self)
        ensures
            r@ == self@,
            r.wf() == self.wf(),
    {
        AggregateSignature {
            validator_bitmask: copy_bytes(&self.validator_bitmask),
            sig: match &self.sig {
                Some(s) => Some(copy_bytes(s)),
                None => None,
            },
        }
    }
}

/// The consensus block metadata a checkpoint commits to.
pub struct BlockInfo {
    /// The epoch to which the block belongs.
    pub epoch: u64,
    /// The consensus round within the epoch.
    pub round: u64,
    /// The identifier (hash) of the block.
    pub id: HashValue,
    /// The accumulator root hash after executing this block.
    pub executed_state_id: HashValue,
    /// The version of the latest transaction after executing this block.
    pub version: u64,
    /// The timestamp this block was proposed at, in microseconds.
    pub timestamp_usecs: u64,
    /// The next epoch's state, present exactly on epoch-ending blocks.
    pub next_epoch_state: Option<EpochState>,
}

/// Spec-level image of the block metadata.
pub struct BlockInfoView {
    pub epoch: u64,
    pub round: u64,
    pub id: Seq<u8>,
    pub executed_state_id: Seq<u8>,
    pub version: u64,
    pub timestamp_usecs: u64,
    pub next_epoch_state: Option<EpochStateView>,
}

impl View for BlockInfo {
    type V = BlockInfoView;

    open spec fn view(&self) -> BlockInfoView {
        BlockInfoView {
            epoch: self.epoch,
            round: self.round,
            id: self.id@,
            executed_state_id: self.executed_state_id@,
            version: self.version,
            timestamp_usecs: self.timestamp_usecs,
            next_epoch_state: match self.next_epoch_state {
                Some(e) => Some(e@),
                None => None,
            },
        }
    }
}

impl BlockInfo {
    pub open spec fn wf(self) -> bool {
        &&& self.id.wf()
        &&& self.executed_state_id.wf()
        &&& self.next_epoch_state matches Some(e) ==> e.wf()
    }
}

impl Clone for BlockInfo {
    fn clone(&self) -> (r: Self)
        ensures
            r@ == self@,
            self.wf() ==> r.wf(),
    {
        BlockInfo {
            epoch: self.epoch,
            round: self.round,
            id: self.id.clone(),
            executed_state_id: self.executed_state_id.clone(),
            version: self.version,
            timestamp_usecs: self.timestamp_usecs,
            next_epoch_state: match &self.next_epoch_state {
                Some(e) => Some(e.clone()),
                None => None,
            },
        }
    }
}

/// The checkpoint content: block metadata plus the consensus data digest.
pub struct CompleteLedgerInfo {
    pub commit_info: BlockInfo,
    /// Hash of consensus-specific data, opaque to everything but consensus.
    pub consensus_data_hash: HashValue,
}

/// Spec-level image of the checkpoint content.
pub struct CompleteLedgerInfoView {
    pub commit_info: BlockInfoView,
    pub consensus_data_hash: Seq<u8>,
}

impl View for CompleteLedgerInfo {
    type V = CompleteLedgerInfoView;

    open spec fn view(&self) -> CompleteLedgerInfoView {
        CompleteLedgerInfoView {
            commit_info: self.commit_info@,
            consensus_data_hash: self.consensus_data_hash@,
        }
    }
}

impl CompleteLedgerInfo {
    pub open spec fn wf(self) -> bool {
        self.commit_info.wf() && self.consensus_data_hash.wf()
    }
}

impl Clone for CompleteLedgerInfo {
    fn clone(&self) -> (r: Self)
        ensures
            r@ == self@,
            self.wf() ==> r.wf(),
    {
        CompleteLedgerInfo {
            commit_info: self.commit_info.clone(),
            consensus_data_hash: self.consensus_data_hash.clone(),
        }
    }
}

/// The checkpoint content paired with the aggregated signature over it.
pub struct LedgerInfoWithV0 {
    pub ledger_info: CompleteLedgerInfo,
    pub signatures: AggregateSignature,
}

/// Spec-level image of a signed checkpoint body.
pub struct LedgerInfoWithV0View {
    pub ledger_info: CompleteLedgerInfoView,
    pub signatures: AggregateSignatureView,
}

impl View for LedgerInfoWithV0 {
    type V = LedgerInfoWithV0View;

    open spec fn view(&self) -> LedgerInfoWithV0View {
        LedgerInfoWithV0View { ledger_info: self.ledger_info@, signatures: self.signatures@ }
    }
}

impl LedgerInfoWithV0 {
    pub open spec fn wf(self) -> bool {
        self.ledger_info.wf() && self.signatures.wf()
    }
}

impl Clone for LedgerInfoWithV0 {
    fn clone(&self) -> (r: Self)
        ensures
            r@ == self@,
            self.wf() ==> r.wf(),
    {
        LedgerInfoWithV0 {
            ledger_info: self.ledger_info.clone(),
            signatures: self.signatures.clone(),
        }
    }
}

/// The versioned wrapper around a signed checkpoint.
#[derive(Clone, Copy, PartialEq, Eq, Structural)]
pub enum LedgerInfoVariant {
    V0,
}

/// A signed checkpoint record, as the store hands it back.
pub struct LedgerInfoWithSignatures {
    pub variant: LedgerInfoVariant,
    pub data: LedgerInfoWithV0,
}

/// Spec-level image of a signed checkpoint record.
pub struct LedgerInfoWithSignaturesView {
    pub data: LedgerInfoWithV0View,
}

impl View for LedgerInfoWithSignatures {
    type V = LedgerInfoWithSignaturesView;

    open spec fn view(&self) -> LedgerInfoWithSignaturesView {
        LedgerInfoWithSignaturesView { data: self.data@ }
    }
}

impl LedgerInfoWithSignatures {
    pub open spec fn wf(self) -> bool {
        self.data.wf()
    }
}

impl Clone for LedgerInfoWithSignatures {
    fn clone(&self) -> (r: Self)
        ensures
            r@ == self@,
            self.wf() ==> r.wf(),
            r.variant == self.variant,
    {
        LedgerInfoWithSignatures { variant: self.variant, data: self.data.clone() }
    }
}

// ---------------------------------------------------------------------------
// Canonical encodings, over the spec-level images.
// ---------------------------------------------------------------------------

pub open spec fn validator_consensus_info_bytes(v: ValidatorConsensusInfoView) -> Seq<u8> {
    length_prefixed(v.address) + length_prefixed(v.public_key) + u64_le(v.voting_power)
}

pub open spec fn validator_verifier_bytes(infos: Seq<ValidatorConsensusInfoView>) -> Seq<u8> {
    uleb128(infos.len()) + concat_bytes(
        infos.map(|i: int, e: ValidatorConsensusInfoView| validator_consensus_info_bytes(e)),
    )
}

pub open spec fn epoch_state_bytes(e: EpochStateView) -> Seq<u8> {
    u64_le(e.epoch) + validator_verifier_bytes(e.verifier)
}

pub open spec fn option_epoch_state_bytes(o: Option<EpochStateView>) -> Seq<u8> {
    match o {
        None => seq![0u8],
        Some(e) => seq![1u8] + epoch_state_bytes(e),
    }
}

pub open spec fn aggregate_signature_bytes(s: AggregateSignatureView) -> Seq<u8> {
    length_prefixed(s.validator_bitmask) + (match s.sig {
        None => seq![0u8],
        Some(b) => seq![1u8] + length_prefixed(b),
    })
}

pub open spec fn block_info_bytes(b: BlockInfoView) -> Seq<u8> {
    u64_le(b.epoch) + u64_le(b.round) + length_prefixed(b.id) + length_prefixed(
        b.executed_state_id,
    ) + u64_le(b.version) + u64_le(b.timestamp_usecs) + option_epoch_state_bytes(b.next_epoch_state)
}

pub open spec fn complete_ledger_info_bytes(c: CompleteLedgerInfoView) -> Seq<u8> {
    block_info_bytes(c.commit_info) + length_prefixed(c.consensus_data_hash)
}

pub open spec fn ledger_info_with_signatures_bytes(l: LedgerInfoWithSignaturesView) -> Seq<u8> {
    seq![0u8] + complete_ledger_info_bytes(l.data.ledger_info) + aggregate_signature_bytes(
        l.data.signatures,
    )
}

// ---------------------------------------------------------------------------
// Serializers.
// ---------------------------------------------------------------------------

/// Serializes one validator's consensus info.
pub fn encode_validator_consensus_info(v: &ValidatorConsensusInfo) -> (r: Vec<u8>)
    requires
        v.wf(),
    ensures
        r@ == validator_consensus_info_bytes(v@),
{
    let mut out = bcs_byte_vec_bytes(&v.address);
    let pk = bcs_byte_vec_bytes(&v.public_key);
    append_bytes(&mut out, &pk);
    let vp = bcs_u64_bytes(v.voting_power);
    append_bytes(&mut out, &vp);
    proof {
        assert(out@ =~= validator_consensus_info_bytes(v@));
    }
    out
}

/// Serializes a validator set.
#[verifier::loop_isolation(false)]
pub fn encode_validator_verifier(v: &ValidatorVerifier) -> (r: Vec<u8>)
    requires
        v.wf(),
    ensures
        r@ == validator_verifier_bytes(v@),
{
    let ghost f = |i: int, e: ValidatorConsensusInfoView| validator_consensus_info_bytes(e);
    let mut out = encode_uleb128(v.validator_infos.len() as u64);
    let mut i: usize = 0;
    while i < v.validator_infos.len()
        invariant
            0 <= i <= v.validator_infos@.len(),
            out@ == uleb128(v.validator_infos@.len() as nat) + concat_bytes(
                v@.subrange(0, i as int).map(f),
            ),
        decreases v.validator_infos@.len() - i,
    {
        let piece = encode_validator_consensus_info(&v.validator_infos[i]);
        append_bytes(&mut out, &piece);
        proof {
            assert(v@.subrange(0, i + 1).map(f) =~= v@.subrange(0, i as int).map(f).push(
                validator_consensus_info_bytes(v@[i as int]),
            ));
            lemma_concat_bytes_push(
                v@.subrange(0, i as int).map(f),
                validator_consensus_info_bytes(v@[i as int]),
            );
        }
        i += 1;
    }
    proof {
        assert(v@.subrange(0, v@.len() as int) =~= v@);
        assert(out@ =~= validator_verifier_bytes(v@));
    }
    out
}

/// Serializes an epoch state.
pub fn encode_epoch_state(e: &EpochState) -> (r: Vec<u8>)
    requires
        e.wf(),
    ensures
        r@ == epoch_state_bytes(e@),
{
    let mut out = bcs_u64_bytes(e.epoch);
    let vv = encode_validator_verifier(&e.verifier);
    append_bytes(&mut out, &vv);
    proof {
        assert(out@ =~= epoch_state_bytes(e@));
    }
    out
}

/// Serializes an aggregate signature.
pub fn encode_aggregate_signature(s: &AggregateSignature) -> (r: Vec<u8>)
    requires
        s.wf(),
    ensures
        r@ == aggregate_signature_bytes(s@),
{
    let mut out = bcs_byte_vec_bytes(&s.validator_bitmask);
    match &s.sig {
        None => {
            let tag = bcs_u8_bytes(0);
            append_bytes(&mut out, &tag);
        },
        Some(b) => {
            let tag = bcs_u8_bytes(1);
            append_bytes(&mut out, &tag);
            let body = bcs_byte_vec_bytes(b);
            append_bytes(&mut out, &body);
        },
    }
    proof {
        assert(out@ =~= aggregate_signature_bytes(s@));
    }
    out
}

/// Serializes the block metadata.
pub fn encode_block_info(b: &BlockInfo) -> (r: Vec<u8>)
    requires
        b.wf(),
    ensures
        r@ == block_info_bytes(b@),
{
    let mut out = bcs_u64_bytes(b.epoch);
    let round = bcs_u64_bytes(b.round);
    append_bytes(&mut out, &round);
    let id = bcs_byte_vec_bytes(&b.id.bytes);
    append_bytes(&mut out, &id);
    let esi = bcs_byte_vec_bytes(&b.executed_state_id.bytes);
    append_bytes(&mut out, &esi);
    let version = bcs_u64_bytes(b.version);
    append_bytes(&mut out, &version);
    let ts = bcs_u64_bytes(b.timestamp_usecs);
    append_bytes(&mut out, &ts);
    match &b.next_epoch_state {
        None => {
            let tag = bcs_u8_bytes(0);
            append_bytes(&mut out, &tag);
        },
        Some(e) => {
            let tag = bcs_u8_bytes(1);
            append_bytes(&mut out, &tag);
            let body = encode_epoch_state(e);
            append_bytes(&mut out, &body);
        },
    }
    proof {
        assert(out@ =~= block_info_bytes(b@));
    }
    out
}

/// Serializes a signed checkpoint record.
pub fn encode_ledger_info_with_signatures(l: &LedgerInfoWithSignatures) -> (r: Vec<u8>)
    requires
        l.wf(),
    ensures
        r@ == ledger_info_with_signatures_bytes(l@),
{
    let mut out = bcs_u8_bytes(0);
    let commit = encode_block_info(&l.data.ledger_info.commit_info);
    append_bytes(&mut out, &commit);
    let cdh = bcs_byte_vec_bytes(&l.data.ledger_info.consensus_data_hash.bytes);
    append_bytes(&mut out, &cdh);
    let sig = encode_aggregate_signature(&l.data.signatures);
    append_bytes(&mut out, &sig);
    proof {
        assert(out@ =~= ledger_info_with_signatures_bytes(l@));
    }
    out
}

} // verus!
