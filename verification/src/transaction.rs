use vstd::prelude::*;
use crate::bytes::HashValue;
use crate::codec::{
    u64_le, length_prefixed, hash_list_bytes, bcs_u64_bytes, bcs_byte_vec_bytes, append_bytes,
    encode_hash_vec,
};

verus! {

// ---------------------------------------------------------------------------
// The transaction summary and the accumulator proof that places it in the
// version-indexed transaction log.
// ---------------------------------------------------------------------------

/// The digest summary of one committed transaction.
pub struct TransactionInfo {
    /// Root of the state tree after this transaction.
    pub state_root_hash: HashValue,
    /// Root of the event tree of this transaction.
    pub event_root_hash: HashValue,
    /// Gas this transaction consumed.
    pub gas_used: u64,
}

/// Spec-level image of a transaction summary.
pub struct TransactionInfoView {
    pub state_root_hash: Seq<u8>,
    pub event_root_hash: Seq<u8>,
    pub gas_used: u64,
}

impl View for TransactionInfo {
    type V = TransactionInfoView;

    open spec fn view(&self) -> TransactionInfoView {
        TransactionInfoView {
            state_root_hash: self.state_root_hash@,
            event_root_hash: self.event_root_hash@,
            gas_used: self.gas_used,
        }
    }
}

impl TransactionInfo {
    pub open spec fn wf(self) -> bool {
        self.state_root_hash.wf() && self.event_root_hash.wf()
    }
}

impl Clone for TransactionInfo {
    fn clone(&self) -> (r: Self)
        ensures
            r@ == self@,
            self.wf() ==> r.wf(),
    {
        TransactionInfo {
            state_root_hash: self.state_root_hash.clone(),
            event_root_hash: self.event_root_hash.clone(),
            gas_used: self.gas_used,
        }
    }
}

/// Sibling digests proving a transaction's position in the transaction
/// accumulator, from the ledger checkpoint down to the transaction.
pub struct TransactionAccumulatorProof {
    pub siblings: Vec<HashValue>,
}

impl View for TransactionAccumulatorProof {
    type V = Seq<Seq<u8>>;

    open spec fn view(&self) -> Seq<Seq<u8>> {
        self.siblings@.map(|i: int, h: HashValue| h@)
    }
}

impl TransactionAccumulatorProof {
    pub open spec fn wf(self) -> bool {
        &&& self.siblings@.len() < 0x8000_0000
        &&& forall|i: int| 0 <= i < self.siblings@.len() ==> (#[trigger] self.siblings@[i]).wf()
    }
}

impl Clone for TransactionAccumulatorProof {
    fn clone(&self) -> (r: Self)
        ensures
            r@ == self@,
            self.wf() ==> r.wf(),
    {
        let mut siblings: Vec<HashValue> = Vec::new();
        let mut i: usize = 0;
        while i < self.siblings.len()
            invariant
                0 <= i <= self.siblings@.len(),
                siblings@.len() == i,
                forall|j: int|
                    0 <= j < i ==> (#[trigger] siblings@[j])@ == self.siblings@[j]@
                        && siblings@[j].wf() == self.siblings@[j].wf(),
            decreases self.siblings@.len() - i,
        {
            siblings.push(self.siblings[i].clone());
            i += 1;
        }
        let r = TransactionAccumulatorProof { siblings };
        proof {
            assert(r@ =~= self@);
            if self.wf() {
                assert forall|j: int|
                    0 <= j < r.siblings@.len() implies (#[trigger] r.siblings@[j]).wf() by {
                    assert(self.siblings@[j].wf());
                }
            }
        }
        r
    }
}

/// Canonical encoding of a transaction summary.
pub open spec fn transaction_info_bytes(t: TransactionInfoView) -> Seq<u8> {
    length_prefixed(t.state_root_hash) + length_prefixed(t.event_root_hash) + u64_le(t.gas_used)
}

/// Canonical encoding of an accumulator proof: its sibling list.
pub open spec fn accumulator_proof_bytes(siblings: Seq<Seq<u8>>) -> Seq<u8> {
    hash_list_bytes(siblings)
}

/// Serializes a transaction summary.
pub fn encode_transaction_info(t: &TransactionInfo) -> (r: Vec<u8>)
    requires
        t.wf(),
    ensures
        r@ == transaction_info_bytes(t@),
{
    let mut out = bcs_byte_vec_bytes(&t.state_root_hash.bytes);
    let ev = bcs_byte_vec_bytes(&t.event_root_hash.bytes);
    append_bytes(&mut out, &ev);
    let gas = bcs_u64_bytes(t.gas_used);
    append_bytes(&mut out, &gas);
    proof {
        assert(out@ =~= transaction_info_bytes(t@));
    }
    out
}

/// Serializes an accumulator proof.
pub fn encode_accumulator_proof(p: &TransactionAccumulatorProof) -> (r: Vec<u8>)
    requires
        p.wf(),
    ensures
        r@ == accumulator_proof_bytes(p@),
{
    encode_hash_vec(&p.siblings)
}

} // verus!
