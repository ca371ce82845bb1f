use vstd::prelude::*;

verus! {

/// Number of bytes in an account address and in a hash digest.
pub const WORD_LENGTH: usize = 32;

/// Compares two byte vectors for equality of contents.
pub fn bytes_eq(a: &Vec<u8>, b: &Vec<u8>) -> (r: bool)
    ensures
        r == (a@ == b@),
{
    if a.len() != b.len() {
        proof {
            assert(a@.len() != b@.len());
        }
        return false;
    }
    let mut i: usize = 0;
    while i < a.len()
        invariant
            i <= a@.len(),
            a@.len() == b@.len(),
            forall|j: int| 0 <= j < i ==> a@[j] == b@[j],
        decreases a@.len() - i,
    {
        if a[i] != b[i] {
            return false;
        }
        i += 1;
    }
    proof {
        assert(a@ =~= b@);
    }
    true
}

/// Returns an owned copy of a byte vector.
pub fn copy_bytes(v: &Vec<u8>) -> (r: Vec<u8>)
    ensures
        r@ == v@,
{
    let mut out: Vec<u8> = Vec::new();
    let mut i: usize = 0;
    while i < v.len()
        invariant
            i <= v@.len(),
            out@ == v@.subrange(0, i as int),
        decreases v@.len() - i,
    {
        out.push(v[i]);
        i += 1;
    }
    proof {
        assert(out@ =~= v@);
    }
    out
}

/// Returns a vector of `n` zero bytes.
pub fn zero_bytes(n: usize) -> (r: Vec<u8>)
    ensures
        r@.len() == n,
        forall|j: int| 0 <= j < n ==> r@[j] == 0u8,
{
    let mut out: Vec<u8> = Vec::new();
    let mut i: usize = 0;
    while i < n
        invariant
            i <= n,
            out@.len() == i,
            forall|j: int| 0 <= j < i ==> out@[j] == 0u8,
        decreases n - i,
    {
        out.push(0u8);
        i += 1;
    }
    out
}

/// A hash digest, as the cryptographic collaborator hands it over.
/// This core treats digests as opaque 32-byte values: it never hashes
/// anything itself.
#[derive(PartialEq, Eq, Debug)]
pub struct HashValue {
    pub bytes: Vec<u8>,
}

impl View for HashValue {
    type V = Seq<u8>;

    open spec fn view(&self) -> Seq<u8> {
        self.bytes@
    }
}

impl HashValue {
    /// A well-formed digest holds exactly 32 bytes.
    pub open spec fn wf(self) -> bool {
        self.bytes@.len() == WORD_LENGTH
    }

    /// Builds a digest from raw bytes; rejects any length other than 32.
    pub fn from_bytes(bytes: Vec<u8>) -> (r: Option<HashValue>)
        ensures
            bytes@.len() == WORD_LENGTH ==> (r is Some && r->0@ == bytes@ && r->0.wf()),
            bytes@.len() != WORD_LENGTH ==> r is None,
    {
        if bytes.len() == WORD_LENGTH {
            Some(HashValue { bytes })
        } else {
            None
        }
    }

    /// The all-zero digest.
    pub fn zero() -> (r: HashValue)
        ensures
            r.wf(),
            forall|j: int| 0 <= j < WORD_LENGTH ==> r@[j] == 0u8,
    {
        HashValue { bytes: zero_bytes(WORD_LENGTH) }
    }

    pub fn equals(&self, other: &HashValue) -> (r: bool)
        ensures
            r == (self@ == other@),
    {
        bytes_eq(&self.bytes, &other.bytes)
    }
}

impl Clone for HashValue {
    fn clone(&self) -> (r: Self)
        ensures
            r@ == self@,
            r.wf() == self.wf(),
    {
        HashValue { bytes: copy_bytes(&self.bytes) }
    }
}

/// A 32-byte account address (also used for table handles).
#[derive(PartialEq, Eq, Debug)]
pub struct Address {
    pub bytes: Vec<u8>,
}

impl View for Address {
    type V = Seq<u8>;

    open spec fn view(&self) -> Seq<u8> {
        self.bytes@
    }
}

impl Address {
    /// A well-formed address holds exactly 32 bytes.
    pub open spec fn wf(self) -> bool {
        self.bytes@.len() == WORD_LENGTH
    }

    /// Builds an address from raw bytes; rejects any length other than 32.
    pub fn from_bytes(bytes: Vec<u8>) -> (r: Option<Address>)
        ensures
            bytes@.len() == WORD_LENGTH ==> (r is Some && r->0@ == bytes@ && r->0.wf()),
            bytes@.len() != WORD_LENGTH ==> r is None,
    {
        if bytes.len() == WORD_LENGTH {
            Some(Address { bytes })
        } else {
            None
        }
    }

    pub fn equals(&self, other: &Address) -> (r: bool)
        ensures
            r == (self@ == other@),
    {
        bytes_eq(&self.bytes, &other.bytes)
    }
}

impl Clone for Address {
    fn clone(&self) -> (r: Self)
        ensures
            r@ == self@,
            r.wf() == self.wf(),
    {
        Address { bytes: copy_bytes(&self.bytes) }
    }
}

} // verus!
