use vstd::prelude::*;
use crate::bytes::HashValue;
use crate::codec::{
    length_prefixed, hash_list_bytes, bcs_u8_bytes, bcs_byte_vec_bytes, append_bytes,
    encode_hash_vec,
};

verus! {

// ---------------------------------------------------------------------------
// State-inclusion proofs, as the store's proof-generation primitive hands
// them back. This core does not recompute Merkle roots (the tree lives in
// the storage collaborator); it carries proofs through unchanged.
// ---------------------------------------------------------------------------

/// The leaf a sparse Merkle proof speaks about: a key digest and the digest
/// of the value stored under it.
pub struct SparseMerkleLeafNode {
    pub key: HashValue,
    pub value: HashValue,
}

/// Spec-level image of a proof leaf.
pub struct SparseMerkleLeafNodeView {
    pub key: Seq<u8>,
    pub value: Seq<u8>,
}

impl View for SparseMerkleLeafNode {
    type V = SparseMerkleLeafNodeView;

    open spec fn view(&self) -> SparseMerkleLeafNodeView {
        SparseMerkleLeafNodeView { key: self.key@, value: self.value@ }
    }
}

impl SparseMerkleLeafNode {
    pub open spec fn wf(self) -> bool {
        self.key.wf() && self.value.wf()
    }
}

impl Clone for SparseMerkleLeafNode {
    fn clone(&self) -> (r: Self)
        ensures
            r@ == self@,
            self.wf() ==> r.wf(),
    {
        SparseMerkleLeafNode { key: self.key.clone(), value: self.value.clone() }
    }
}

/// A sparse Merkle (non-)inclusion proof: an optional leaf and the sibling
/// digests on the path, oldest to innermost. An absent leaf denotes a
/// non-inclusion proof.
pub struct SparseMerkleProof {
    pub leaf: Option<SparseMerkleLeafNode>,
    pub siblings: Vec<HashValue>,
}

/// Spec-level image of a sparse Merkle proof.
pub struct SparseMerkleProofView {
    pub leaf: Option<SparseMerkleLeafNodeView>,
    pub siblings: Seq<Seq<u8>>,
}

impl View for SparseMerkleProof {
    type V = SparseMerkleProofView;

    open spec fn view(&self) -> SparseMerkleProofView {
        SparseMerkleProofView {
            leaf: match self.leaf {
                Some(l) => Some(l@),
                None => None,
            },
            siblings: self.siblings@.map(|i: int, h: HashValue| h@),
        }
    }
}

impl SparseMerkleProof {
    pub open spec fn wf(self) -> bool {
        &&& self.leaf matches Some(l) ==> l.wf()
        &&& self.siblings@.len() < 0x8000_0000
        &&& forall|i: int| 0 <= i < self.siblings@.len() ==> (#[trigger] self.siblings@[i]).wf()
    }
}

impl Clone for SparseMerkleProof {
    fn clone(&self) -> (r: Self)
        ensures
            r@ == self@,
            self.wf() ==> r.wf(),
    {
        let leaf = match &self.leaf {
            Some(l) => Some(l.clone()),
            None => None,
        };
        let mut siblings: Vec<HashValue> = Vec::new();
        let mut i: usize = 0;
        while i < self.siblings.len()
            invariant
                0 <= i <= self.siblings@.len(),
                siblings@.len() == i,
                forall|j: int|
                    0 <= j < i ==> (#[trigger] siblings@[j])@ == self.siblings@[j]@
                        && siblings@[j].wf() == self.siblings@[j].wf(),
            decreases self.siblings@.len() - i,
        {
            siblings.push(self.siblings[i].clone());
            i += 1;
        }
        let r = SparseMerkleProof { leaf, siblings };
        proof {
            assert(r@.siblings =~= self@.siblings);
            assert(r@ == self@);
            if self.wf() {
                assert forall|j: int|
                    0 <= j < r.siblings@.len() implies (#[trigger] r.siblings@[j]).wf() by {
                    assert(self.siblings@[j].wf());
                }
            }
        }
        r
    }
}

/// Canonical encoding of a proof leaf.
pub open spec fn sparse_merkle_leaf_bytes(l: SparseMerkleLeafNodeView) -> Seq<u8> {
    length_prefixed(l.key) + length_prefixed(l.value)
}

/// Canonical encoding of a sparse Merkle proof: the optional leaf, then the
/// sibling list.
pub open spec fn sparse_merkle_proof_bytes(p: SparseMerkleProofView) -> Seq<u8> {
    (match p.leaf {
        None => seq![0u8],
        Some(l) => seq![1u8] + sparse_merkle_leaf_bytes(l),
    }) + hash_list_bytes(p.siblings)
}

/// Serializes a sparse Merkle proof.
pub fn encode_sparse_merkle_proof(p: &SparseMerkleProof) -> (r: Vec<u8>)
    requires
        p.wf(),
    ensures
        r@ == sparse_merkle_proof_bytes(p@),
{
    let mut out: Vec<u8>;
    match &p.leaf {
        None => {
            out = bcs_u8_bytes(0);
        },
        Some(l) => {
            out = bcs_u8_bytes(1);
            let key = bcs_byte_vec_bytes(&l.key.bytes);
            append_bytes(&mut out, &key);
            let value = bcs_byte_vec_bytes(&l.value.bytes);
            append_bytes(&mut out, &value);
        },
    }
    let siblings = encode_hash_vec(&p.siblings);
    append_bytes(&mut out, &siblings);
    proof {
        assert(out@ =~= sparse_merkle_proof_bytes(p@));
    }
    out
}

} // verus!
