use vstd::prelude::*;
use crate::bytes::HashValue;

verus! {

// ---------------------------------------------------------------------------
// The canonical binary format of this library's wire objects, stated as spec
// functions. Primitive values follow the canonical serialization rules of the
// bcs crate: integers little-endian, sequence lengths as ULEB128, booleans as
// a single 0/1 byte, structs as the concatenation of their fields.
// ---------------------------------------------------------------------------

/// ULEB128 encoding: little-endian base-128 groups, high bit set on every
/// group but the last.
pub open spec fn uleb128(n: nat) -> Seq<u8>
    decreases n,
{
    if n < 0x80 {
        seq![n as u8]
    } else {
        seq![(0x80 + (n % 0x80)) as u8] + uleb128(n / 0x80)
    }
}

/// A u64 as 8 little-endian bytes.
pub open spec fn u64_le(x: u64) -> Seq<u8> {
    seq![
        (x & 0xff) as u8,
        ((x >> 8) & 0xff) as u8,
        ((x >> 16) & 0xff) as u8,
        ((x >> 24) & 0xff) as u8,
        ((x >> 32) & 0xff) as u8,
        ((x >> 40) & 0xff) as u8,
        ((x >> 48) & 0xff) as u8,
        ((x >> 56) & 0xff) as u8,
    ]
}

/// A u128 as 16 little-endian bytes: the low quadword, then the high one.
pub open spec fn u128_le(x: u128) -> Seq<u8> {
    u64_le((x & 0xffff_ffff_ffff_ffff) as u64) + u64_le((x >> 64) as u64)
}

/// A bool as one byte, 1 for true and 0 for false.
pub open spec fn bool_byte(b: bool) -> Seq<u8> {
    seq![if b { 1u8 } else { 0u8 }]
}

/// A length-prefixed byte string: ULEB128 length, then the bytes.
pub open spec fn length_prefixed(s: Seq<u8>) -> Seq<u8> {
    uleb128(s.len()) + s
}

/// Whether `prefix` occurs in `bytes` starting at `pos`.
pub open spec fn starts_with_at(bytes: Seq<u8>, pos: int, prefix: Seq<u8>) -> bool {
    &&& 0 <= pos
    &&& pos + prefix.len() <= bytes.len()
    &&& bytes.subrange(pos, pos + prefix.len()) == prefix
}

/// A prefix occurrence splits into occurrences of its parts.
pub proof fn lemma_starts_with_split(bytes: Seq<u8>, pos: int, a: Seq<u8>, b: Seq<u8>)
    requires
        starts_with_at(bytes, pos, a + b),
    ensures
        starts_with_at(bytes, pos, a),
        starts_with_at(bytes, pos + a.len(), b),
{
    let ab = a + b;
    assert forall|i: int| 0 <= i < a.len() implies a[i] == bytes[pos + i] by {
        assert(ab[i] == a[i]);
        assert(bytes.subrange(pos, pos + ab.len())[i] == bytes[pos + i]);
    }
    assert(a =~= bytes.subrange(pos, pos + a.len()));
    assert forall|i: int| 0 <= i < b.len() implies b[i] == bytes[pos + a.len() + i] by {
        assert(ab[a.len() + i] == b[i]);
        assert(bytes.subrange(pos, pos + ab.len())[a.len() + i] == bytes[pos + a.len() + i]);
    }
    assert(b =~= bytes.subrange(pos + a.len(), pos + a.len() + b.len()));
}

/// A ULEB128 encoding is never empty.
pub proof fn lemma_uleb128_len(n: nat)
    ensures
        uleb128(n).len() >= 1,
    decreases n,
{
    if n >= 0x80 {
        lemma_uleb128_len(n / 0x80);
    }
}

/// ULEB128 is prefix-free: two encodings occurring at the same position
/// denote the same number.
pub proof fn lemma_uleb128_unique(bytes: Seq<u8>, pos: int, a: nat, b: nat)
    requires
        starts_with_at(bytes, pos, uleb128(a)),
        starts_with_at(bytes, pos, uleb128(b)),
    ensures
        a == b,
    decreases a,
{
    lemma_uleb128_len(a);
    lemma_uleb128_len(b);
    assert(uleb128(a)[0] == bytes[pos]);
    assert(uleb128(b)[0] == bytes[pos]);
    if a < 0x80 && b < 0x80 {
        assert(uleb128(a)[0] == a as u8);
        assert(uleb128(b)[0] == b as u8);
    } else if a < 0x80 {
        assert(uleb128(a)[0] == a as u8 && a < 0x80);
        assert(uleb128(b)[0] == (0x80 + (b % 0x80)) as u8 && 0x80 + (b % 0x80) < 0x100);
        assert(false);
    } else if b < 0x80 {
        assert(uleb128(b)[0] == b as u8 && b < 0x80);
        assert(uleb128(a)[0] == (0x80 + (a % 0x80)) as u8 && 0x80 + (a % 0x80) < 0x100);
        assert(false);
    } else {
        assert(uleb128(a) == seq![(0x80 + (a % 0x80)) as u8] + uleb128(a / 0x80));
        assert(uleb128(b) == seq![(0x80 + (b % 0x80)) as u8] + uleb128(b / 0x80));
        lemma_starts_with_split(bytes, pos, seq![(0x80 + (a % 0x80)) as u8], uleb128(a / 0x80));
        lemma_starts_with_split(bytes, pos, seq![(0x80 + (b % 0x80)) as u8], uleb128(b / 0x80));
        assert((0x80 + (a % 0x80)) as u8 == bytes[pos]);
        assert((0x80 + (b % 0x80)) as u8 == bytes[pos]);
        assert(a % 0x80 == b % 0x80);
        assert(a / 0x80 < a) by (nonlinear_arith)
            requires
                a >= 0x80,
        ;
        lemma_uleb128_unique(bytes, pos + 1, a / 0x80, b / 0x80);
        assert(a == 0x80 * (a / 0x80) + a % 0x80) by (nonlinear_arith);
        assert(b == 0x80 * (b / 0x80) + b % 0x80) by (nonlinear_arith);
    }
}

/// Concatenation of a sequence of byte strings.
pub open spec fn concat_bytes(s: Seq<Seq<u8>>) -> Seq<u8>
    decreases s,
{
    if s.len() == 0 {
        Seq::empty()
    } else {
        s[0] + concat_bytes(s.subrange(1, s.len() as int))
    }
}

/// Concatenation distributes over appending one piece.
pub proof fn lemma_concat_bytes_push(s: Seq<Seq<u8>>, x: Seq<u8>)
    ensures
        concat_bytes(s.push(x)) == concat_bytes(s) + x,
    decreases s.len(),
{
    if s.len() == 0 {
        assert(s.push(x) =~= seq![x]);
        assert(seq![x].subrange(1, 1) =~= Seq::<Seq<u8>>::empty());
        assert(concat_bytes(seq![x].subrange(1, 1)) == Seq::<u8>::empty());
        assert(concat_bytes(s.push(x)) =~= concat_bytes(s) + x);
    } else {
        assert(s.push(x).subrange(1, s.push(x).len() as int) =~= s.subrange(
            1,
            s.len() as int,
        ).push(x));
        lemma_concat_bytes_push(s.subrange(1, s.len() as int), x);
        assert(concat_bytes(s.push(x)) =~= concat_bytes(s) + x);
    }
}

// ---------------------------------------------------------------------------
// Trusted primitives over the bcs crate.
// ---------------------------------------------------------------------------

/// Relies on bcs::to_bytes for u8: a single byte holding the value.
#[verifier::external_body]
pub fn bcs_u8_bytes(x: u8) -> (r: Vec<u8>)
    ensures
        r@ == seq![x],
{
    bcs::to_bytes(&x).unwrap()
}

/// Relies on bcs::to_bytes for u64: 8 bytes, little-endian.
#[verifier::external_body]
pub fn bcs_u64_bytes(x: u64) -> (r: Vec<u8>)
    ensures
        r@ == u64_le(x),
{
    bcs::to_bytes(&x).unwrap()
}

/// Relies on bcs::to_bytes for u128: 16 bytes, little-endian.
#[verifier::external_body]
pub fn bcs_u128_bytes(x: u128) -> (r: Vec<u8>)
    ensures
        r@ == u128_le(x),
{
    bcs::to_bytes(&x).unwrap()
}

/// Relies on bcs::to_bytes for bool: one byte, 1 for true and 0 for false.
#[verifier::external_body]
pub fn bcs_bool_bytes(b: bool) -> (r: Vec<u8>)
    ensures
        r@ == bool_byte(b),
{
    bcs::to_bytes(&b).unwrap()
}

/// Relies on bcs::to_bytes for Vec<u8>: the ULEB128-encoded length followed
/// by the bytes themselves. The length cap is the crate's MAX_SEQUENCE_LENGTH,
/// above which it refuses to serialize.
#[verifier::external_body]
pub fn bcs_byte_vec_bytes(v: &Vec<u8>) -> (r: Vec<u8>)
    requires
        v@.len() < 0x8000_0000,
    ensures
        r@ == length_prefixed(v@),
{
    bcs::to_bytes(v).unwrap()
}

// ---------------------------------------------------------------------------
// Verified helpers.
// ---------------------------------------------------------------------------

/// Appends the contents of `src` to `dst`.
pub fn append_bytes(dst: &mut Vec<u8>, src: &Vec<u8>)
    ensures
        final(dst)@ == old(dst)@ + src@,
{
    dst.extend_from_slice(src.as_slice());
    proof {
        assert(dst@ =~= old(dst)@ + src@);
    }
}

/// Returns an owned copy of `v[start..end]`.
pub fn copy_range(v: &Vec<u8>, start: usize, end: usize) -> (r: Vec<u8>)
    requires
        start <= end <= v@.len(),
    ensures
        r@ == v@.subrange(start as int, end as int),
{
    let mut out: Vec<u8> = Vec::new();
    let mut i: usize = start;
    while i < end
        invariant
            start <= i <= end <= v@.len(),
            out@ == v@.subrange(start as int, i as int),
        decreases end - i,
    {
        out.push(v[i]);
        i += 1;
        proof {
            assert(out@ =~= v@.subrange(start as int, i as int));
        }
    }
    out
}

/// ULEB128-encodes a number.
pub fn encode_uleb128(n: u64) -> (r: Vec<u8>)
    ensures
        r@ == uleb128(n as nat),
    decreases n,
{
    if n < 0x80 {
        let mut out: Vec<u8> = Vec::new();
        out.push(n as u8);
        proof {
            assert(out@ =~= uleb128(n as nat));
        }
        out
    } else {
        proof {
            assert(n / 0x80 < n) by (nonlinear_arith)
                requires
                    n >= 0x80,
            ;
        }
        let b: u8 = ((n % 0x80) as u8) + 0x80;
        let mut out: Vec<u8> = Vec::new();
        out.push(b);
        let rest = encode_uleb128(n / 0x80);
        append_bytes(&mut out, &rest);
        proof {
            assert(out@ =~= uleb128(n as nat));
        }
        out
    }
}

/// Parses a ULEB128 number; accepts only the canonical form, and only values
/// that fit in 32 bits. On success the consumed bytes are exactly the
/// canonical encoding of the returned value; on failure no such encoding
/// occurs at `pos`.
pub fn decode_uleb128(bytes: &Vec<u8>, pos: usize) -> (r: Option<(u64, usize)>)
    ensures
        r matches Some(p) ==> {
            &&& pos <= p.1 <= bytes@.len()
            &&& p.0 <= 0xffff_ffff
            &&& uleb128(p.0 as nat) == bytes@.subrange(pos as int, p.1 as int)
        },
        r is None ==> forall|n: u64|
            n <= 0xffff_ffff ==> !starts_with_at(bytes@, pos as int, uleb128(n as nat)),
    decreases bytes@.len() - pos,
{
    if pos >= bytes.len() {
        proof {
            assert forall|n: u64|
                n <= 0xffff_ffff implies !starts_with_at(bytes@, pos as int, uleb128(n as nat)) by {
                lemma_uleb128_len(n as nat);
            }
        }
        return None;
    }
    let b = bytes[pos];
    if b < 0x80 {
        proof {
            assert(uleb128(b as nat) =~= bytes@.subrange(pos as int, pos + 1));
        }
        return Some((b as u64, pos + 1));
    }
    let rec = decode_uleb128(bytes, pos + 1);
    proof {
        if !(rec matches Some(p) && p.0 >= 1 && p.0 <= (0xffff_ffffu64 - 0x7f) / 0x80) {
            assert forall|n: u64|
                n <= 0xffff_ffff implies !starts_with_at(bytes@, pos as int, uleb128(n as nat)) by {
                if starts_with_at(bytes@, pos as int, uleb128(n as nat)) {
                    lemma_uleb128_len(n as nat);
                    if n < 0x80 {
                        // The first byte would be below the continuation bit.
                        assert(uleb128(n as nat) == seq![n as u8]);
                        assert(bytes@.subrange(pos as int, pos + 1) == seq![n as u8]);
                        assert(bytes@.subrange(pos as int, pos + 1)[0] == bytes@[pos as int]);
                        assert(false);
                    } else {
                        let m = (n as nat) / 0x80;
                        assert(uleb128(n as nat) == seq![(0x80 + (n as nat) % 0x80) as u8]
                            + uleb128(m));
                        lemma_starts_with_split(
                            bytes@,
                            pos as int,
                            seq![(0x80 + (n as nat) % 0x80) as u8],
                            uleb128(m),
                        );
                        lemma_uleb128_len(m);
                        assert(m >= 1 && m <= 0x01ff_ffff) by (nonlinear_arith)
                            requires
                                m == (n as nat) / 0x80,
                                0x80 <= n as nat <= 0xffff_ffff,
                        ;
                        match rec {
                            None => {
                                // No number at all parses just past the
                                // continuation byte.
                                assert(!starts_with_at(bytes@, pos + 1, uleb128((m as u64) as nat)));
                                assert(false);
                            },
                            Some(p) => {
                                assert(starts_with_at(bytes@, pos + 1, uleb128(p.0 as nat)));
                                lemma_uleb128_unique(bytes@, pos + 1, p.0 as nat, m);
                                assert(false);
                            },
                        }
                    }
                }
            }
        }
    }
    let (rest, end) = match rec {
        Some(p) => p,
        None => {
            return None;
        },
    };
    if rest == 0 {
        // A zero continuation would make the encoding non-canonical.
        return None;
    }
    if rest > (0xffff_ffffu64 - 0x7f) / 0x80 {
        return None;
    }
    let low: u64 = (b as u64) - 0x80;
    let val: u64 = low + 0x80 * rest;
    proof {
        assert(val % 0x80 == low && val / 0x80 == rest) by (nonlinear_arith)
            requires
                val == low + 0x80 * rest,
                low < 0x80,
                rest >= 1,
        ;
        assert(uleb128(val as nat) =~= bytes@.subrange(pos as int, end as int));
    }
    Some((val, end))
}

/// Encoding of a list of digests: the ULEB128 count, then each digest
/// length-prefixed.
pub open spec fn hash_list_bytes(hs: Seq<Seq<u8>>) -> Seq<u8> {
    uleb128(hs.len()) + concat_bytes(hs.map(|i: int, h: Seq<u8>| length_prefixed(h)))
}

/// Serializes a list of digests.
#[verifier::loop_isolation(false)]
pub fn encode_hash_vec(v: &Vec<HashValue>) -> (r: Vec<u8>)
    requires
        v@.len() < 0x8000_0000,
        forall|i: int| 0 <= i < v@.len() ==> (#[trigger] v@[i]).wf(),
    ensures
        r@ == hash_list_bytes(v@.map(|i: int, h: HashValue| h@)),
{
    let ghost hview = v@.map(|i: int, h: HashValue| h@);
    let ghost f = |i: int, h: Seq<u8>| length_prefixed(h);
    let mut out = encode_uleb128(v.len() as u64);
    let mut i: usize = 0;
    while i < v.len()
        invariant
            0 <= i <= v@.len(),
            out@ == uleb128(hview.len()) + concat_bytes(hview.subrange(0, i as int).map(f)),
        decreases v@.len() - i,
    {
        let piece = bcs_byte_vec_bytes(&v[i].bytes);
        append_bytes(&mut out, &piece);
        proof {
            assert(hview.subrange(0, i + 1).map(f) =~= hview.subrange(0, i as int).map(f).push(
                length_prefixed(hview[i as int]),
            ));
            lemma_concat_bytes_push(
                hview.subrange(0, i as int).map(f),
                length_prefixed(hview[i as int]),
            );
        }
        i += 1;
    }
    proof {
        assert(hview.subrange(0, hview.len() as int) =~= hview);
        assert(out@ =~= hash_list_bytes(hview));
    }
    out
}

/// Parses a u64 from 8 little-endian bytes.
pub fn decode_u64_le(bytes: &Vec<u8>, pos: usize) -> (r: Option<(u64, usize)>)
    ensures
        r matches Some(p) ==> {
            &&& p.1 == pos + 8 <= bytes@.len()
            &&& u64_le(p.0) == bytes@.subrange(pos as int, p.1 as int)
        },
        r is None ==> pos + 8 > bytes@.len(),
{
    if pos > bytes.len() || bytes.len() - pos < 8 {
        return None;
    }
    let b0 = bytes[pos];
    let b1 = bytes[pos + 1];
    let b2 = bytes[pos + 2];
    let b3 = bytes[pos + 3];
    let b4 = bytes[pos + 4];
    let b5 = bytes[pos + 5];
    let b6 = bytes[pos + 6];
    let b7 = bytes[pos + 7];
    let x: u64 = (b0 as u64) | ((b1 as u64) << 8) | ((b2 as u64) << 16) | ((b3 as u64) << 24) | (
    (b4 as u64) << 32) | ((b5 as u64) << 40) | ((b6 as u64) << 48) | ((b7 as u64) << 56);
    proof {
        assert((x & 0xff) as u8 == b0 && ((x >> 8) & 0xff) as u8 == b1 && ((x >> 16) & 0xff) as u8
            == b2 && ((x >> 24) & 0xff) as u8 == b3 && ((x >> 32) & 0xff) as u8 == b4 && ((x >> 40)
            & 0xff) as u8 == b5 && ((x >> 48) & 0xff) as u8 == b6 && ((x >> 56) & 0xff) as u8 == b7)
            by (bit_vector)
            requires
                x == (b0 as u64) | ((b1 as u64) << 8) | ((b2 as u64) << 16) | ((b3 as u64) << 24) |
                    ((b4 as u64) << 32) | ((b5 as u64) << 40) | ((b6 as u64) << 48) | ((b7
                    as u64) << 56),
        ;
        assert(u64_le(x) =~= bytes@.subrange(pos as int, pos + 8));
    }
    Some((x, pos + 8))
}

/// Parses a u128 from 16 little-endian bytes.
pub fn decode_u128_le(bytes: &Vec<u8>, pos: usize) -> (r: Option<(u128, usize)>)
    ensures
        r matches Some(p) ==> {
            &&& p.1 == pos + 16 <= bytes@.len()
            &&& u128_le(p.0) == bytes@.subrange(pos as int, p.1 as int)
        },
        r is None ==> pos + 16 > bytes@.len(),
{
    let (lo, mid) = match decode_u64_le(bytes, pos) {
        Some(p) => p,
        None => {
            return None;
        },
    };
    let (hi, end) = match decode_u64_le(bytes, mid) {
        Some(p) => p,
        None => {
            return None;
        },
    };
    let x: u128 = (lo as u128) | ((hi as u128) << 64);
    proof {
        assert((x & 0xffff_ffff_ffff_ffff) as u64 == lo && (x >> 64) as u64 == hi)
            by (bit_vector)
            requires
                x == (lo as u128) | ((hi as u128) << 64),
        ;
        assert(u128_le(x) =~= bytes@.subrange(pos as int, pos + 16));
    }
    Some((x, end))
}

} // verus!
