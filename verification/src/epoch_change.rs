use vstd::prelude::*;
use crate::codec::{uleb128, bool_byte, concat_bytes, lemma_concat_bytes_push, bcs_bool_bytes,
    append_bytes, encode_uleb128};
use crate::ledger_info::{
    LedgerInfoWithSignatures, LedgerInfoWithSignaturesView, ledger_info_with_signatures_bytes,
    encode_ledger_info_with_signatures,
};

verus! {

/// A chain of epoch-ending signed checkpoints, plus a flag saying whether
/// the chain was truncated.
pub struct EpochChangeProof {
    pub ledger_info_with_sigs: Vec<LedgerInfoWithSignatures>,
    pub more: bool,
}

/// Spec-level image of an epoch-change proof.
pub struct EpochChangeProofView {
    pub ledger_info_with_sigs: Seq<LedgerInfoWithSignaturesView>,
    pub more: bool,
}

impl View for EpochChangeProof {
    type V = EpochChangeProofView;

    open spec fn view(&self) -> EpochChangeProofView {
        EpochChangeProofView {
            ledger_info_with_sigs: self.ledger_info_with_sigs@.map(
                |i: int, e: LedgerInfoWithSignatures| e@,
            ),
            more: self.more,
        }
    }
}

impl EpochChangeProof {
    pub open spec fn wf(self) -> bool {
        &&& self.ledger_info_with_sigs@.len() < 0x8000_0000
        &&& forall|i: int|
            0 <= i < self.ledger_info_with_sigs@.len() ==> (
            #[trigger] self.ledger_info_with_sigs@[i]).wf()
    }
}

/// Canonical encoding of an epoch-change proof: the checkpoint list, then
/// the truncation flag.
pub open spec fn epoch_change_proof_bytes(p: EpochChangeProofView) -> Seq<u8> {
    uleb128(p.ledger_info_with_sigs.len()) + concat_bytes(
        p.ledger_info_with_sigs.map(
            |i: int, e: LedgerInfoWithSignaturesView| ledger_info_with_signatures_bytes(e),
        ),
    ) + bool_byte(p.more)
}

/// Serializes an epoch-change proof.
#[verifier::loop_isolation(false)]
pub fn encode_epoch_change_proof(p: &EpochChangeProof) -> (r: Vec<u8>)
    requires
        p.wf(),
    ensures
        r@ == epoch_change_proof_bytes(p@),
{
    let ghost lview = p.ledger_info_with_sigs@.map(|i: int, e: LedgerInfoWithSignatures| e@);
    let ghost f = |i: int, e: LedgerInfoWithSignaturesView| ledger_info_with_signatures_bytes(e);
    let mut out = encode_uleb128(p.ledger_info_with_sigs.len() as u64);
    let mut i: usize = 0;
    while i < p.ledger_info_with_sigs.len()
        invariant
            0 <= i <= p.ledger_info_with_sigs@.len(),
            out@ == uleb128(lview.len()) + concat_bytes(lview.subrange(0, i as int).map(f)),
        decreases p.ledger_info_with_sigs@.len() - i,
    {
        let piece = encode_ledger_info_with_signatures(&p.ledger_info_with_sigs[i]);
        append_bytes(&mut out, &piece);
        proof {
            assert(lview.subrange(0, i + 1).map(f) =~= lview.subrange(0, i as int).map(f).push(
                ledger_info_with_signatures_bytes(lview[i as int]),
            ));
            lemma_concat_bytes_push(
                lview.subrange(0, i as int).map(f),
                ledger_info_with_signatures_bytes(lview[i as int]),
            );
        }
        i += 1;
    }
    let flag = bcs_bool_bytes(p.more);
    append_bytes(&mut out, &flag);
    proof {
        assert(lview.subrange(0, lview.len() as int) =~= lview);
        assert(out@ =~= epoch_change_proof_bytes(p@));
    }
    out
}

} // verus!
