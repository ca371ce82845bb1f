use vstd::prelude::*;
use crate::bytes::{Address, copy_bytes};
use crate::codec::{
    bool_byte, u64_le, u128_le, uleb128, starts_with_at, bcs_u8_bytes, bcs_u64_bytes,
    bcs_u128_bytes, bcs_bool_bytes, append_bytes, encode_uleb128, decode_uleb128, decode_u64_le,
    decode_u128_le, lemma_starts_with_split, lemma_uleb128_unique,
};
use crate::state_key::decode_address;

verus! {

// ---------------------------------------------------------------------------
// Typed values and their descriptors. A type descriptor (layout) is supplied
// by the caller or by the store; a typed value either conforms to a layout or
// does not. The canonical binary form of a conforming value is defined below,
// and the decoder accepts exactly that form.
// ---------------------------------------------------------------------------

/// A type descriptor for a typed ledger value.
#[derive(PartialEq, Eq, Debug)]
pub enum MoveTypeLayout {
    Bool,
    U8,
    U64,
    U128,
    Address,
    Vector(Box<MoveTypeLayout>),
    /// A struct is described by the layouts of its fields, in order.
    Struct(Vec<MoveTypeLayout>),
}

/// A typed, structured value: the decoded form of a ledger byte entry.
#[derive(PartialEq, Eq, Debug)]
pub enum MoveValueData {
    Bool(bool),
    U8(u8),
    U64(u64),
    U128(u128),
    Address(Address),
    Vector(Vec<MoveValueData>),
    Struct(Vec<MoveValueData>),
}

/// Whether a value has the shape a layout describes.
pub open spec fn conforms(v: MoveValueData, t: MoveTypeLayout) -> bool
    decreases v,
{
    match v {
        MoveValueData::Bool(_) => t is Bool,
        MoveValueData::U8(_) => t is U8,
        MoveValueData::U64(_) => t is U64,
        MoveValueData::U128(_) => t is U128,
        MoveValueData::Address(_) => t is Address,
        MoveValueData::Vector(elems) => match t {
            MoveTypeLayout::Vector(inner) => forall|i: int|
                0 <= i < elems@.len() ==> conforms(#[trigger] elems@[i], *inner),
            _ => false,
        },
        MoveValueData::Struct(vals) => match t {
            MoveTypeLayout::Struct(fields) => {
                &&& vals@.len() == fields@.len()
                &&& forall|i: int|
                    0 <= i < vals@.len() ==> conforms(#[trigger] vals@[i], fields@[i])
            },
            _ => false,
        },
    }
}

/// Well-formedness of a value: addresses are 32 bytes and every sequence is
/// short enough for canonical serialization.
pub open spec fn value_wf(v: MoveValueData) -> bool
    decreases v,
{
    match v {
        MoveValueData::Bool(_) => true,
        MoveValueData::U8(_) => true,
        MoveValueData::U64(_) => true,
        MoveValueData::U128(_) => true,
        MoveValueData::Address(a) => a.wf(),
        MoveValueData::Vector(elems) => {
            &&& elems@.len() < 0x8000_0000
            &&& forall|i: int| 0 <= i < elems@.len() ==> value_wf(#[trigger] elems@[i])
        },
        MoveValueData::Struct(vals) => forall|i: int|
            0 <= i < vals@.len() ==> value_wf(#[trigger] vals@[i]),
    }
}

/// Canonical encoding of a typed value: primitives as in the codec, vectors
/// length-prefixed, structs as the concatenation of their fields.
pub open spec fn value_bytes(v: MoveValueData) -> Seq<u8>
    decreases v,
{
    match v {
        MoveValueData::Bool(b) => bool_byte(b),
        MoveValueData::U8(x) => seq![x],
        MoveValueData::U64(x) => u64_le(x),
        MoveValueData::U128(x) => u128_le(x),
        MoveValueData::Address(a) => a@,
        MoveValueData::Vector(elems) => uleb128(elems@.len()) + values_bytes(elems@),
        MoveValueData::Struct(vals) => values_bytes(vals@),
    }
}

/// Concatenated canonical encodings of a sequence of values.
pub open spec fn values_bytes(vs: Seq<MoveValueData>) -> Seq<u8>
    decreases vs,
{
    if vs.len() == 0 {
        Seq::empty()
    } else {
        value_bytes(vs[0]) + values_bytes(vs.subrange(1, vs.len() as int))
    }
}

/// Concatenation distributes over `values_bytes`.
pub proof fn lemma_values_bytes_concat(s1: Seq<MoveValueData>, s2: Seq<MoveValueData>)
    ensures
        values_bytes(s1 + s2) == values_bytes(s1) + values_bytes(s2),
    decreases s1.len(),
{
    if s1.len() == 0 {
        assert(s1 + s2 =~= s2);
        assert(values_bytes(s1) + values_bytes(s2) =~= values_bytes(s2));
    } else {
        assert((s1 + s2).subrange(1, (s1 + s2).len() as int) =~= s1.subrange(1, s1.len() as int)
            + s2);
        lemma_values_bytes_concat(s1.subrange(1, s1.len() as int), s2);
        assert((s1 + s2)[0] == s1[0]);
        assert(values_bytes(s1 + s2) =~= values_bytes(s1) + values_bytes(s2));
    }
}

/// Appending one value appends its encoding.
pub proof fn lemma_values_bytes_push(vs: Seq<MoveValueData>, v: MoveValueData)
    ensures
        values_bytes(vs.push(v)) == values_bytes(vs) + value_bytes(v),
{
    assert(vs.push(v) =~= vs + seq![v]);
    lemma_values_bytes_concat(vs, seq![v]);
    assert(seq![v].subrange(1, 1) =~= Seq::<MoveValueData>::empty());
    assert(values_bytes(seq![v].subrange(1, 1)) == Seq::<u8>::empty());
    assert(values_bytes(seq![v]) == value_bytes(seq![v][0]) + values_bytes(seq![v].subrange(1, 1)));
    assert(values_bytes(seq![v]) =~= value_bytes(v));
}

/// Every element conforms to one layout and is well-formed.
pub open spec fn all_conform(vs: Seq<MoveValueData>, t: MoveTypeLayout) -> bool {
    forall|j: int| 0 <= j < vs.len() ==> conforms(#[trigger] vs[j], t) && value_wf(vs[j])
}

/// Each value conforms to its positional layout and is well-formed.
pub open spec fn fields_conform(vs: Seq<MoveValueData>, ts: Seq<MoveTypeLayout>) -> bool {
    &&& vs.len() == ts.len()
    &&& forall|j: int| 0 <= j < vs.len() ==> conforms(#[trigger] vs[j], ts[j]) && value_wf(vs[j])
}

/// Splitting a concatenated encoding at an index.
pub proof fn lemma_values_bytes_split(vs: Seq<MoveValueData>, i: int)
    requires
        0 <= i <= vs.len(),
    ensures
        values_bytes(vs) == values_bytes(vs.subrange(0, i)) + values_bytes(
            vs.subrange(i, vs.len() as int),
        ),
{
    assert(vs =~= vs.subrange(0, i) + vs.subrange(i, vs.len() as int));
    lemma_values_bytes_concat(vs.subrange(0, i), vs.subrange(i, vs.len() as int));
}

/// Encodings of conforming, well-formed values of one layout are prefix-free:
/// two of them occurring at the same position are the same bytes.
pub proof fn lemma_value_bytes_unique(
    bytes: Seq<u8>,
    pos: int,
    t: MoveTypeLayout,
    v1: MoveValueData,
    v2: MoveValueData,
)
    requires
        conforms(v1, t),
        value_wf(v1),
        conforms(v2, t),
        value_wf(v2),
        starts_with_at(bytes, pos, value_bytes(v1)),
        starts_with_at(bytes, pos, value_bytes(v2)),
    ensures
        value_bytes(v1) == value_bytes(v2),
    decreases t, 0int, 0int,
{
    match t {
        MoveTypeLayout::Bool => {
            assert(value_bytes(v1).len() == 1 && value_bytes(v2).len() == 1);
            assert(value_bytes(v1) == bytes.subrange(pos, pos + 1));
            assert(value_bytes(v2) == bytes.subrange(pos, pos + 1));
        },
        MoveTypeLayout::U8 => {
            assert(value_bytes(v1) == bytes.subrange(pos, pos + 1));
            assert(value_bytes(v2) == bytes.subrange(pos, pos + 1));
        },
        MoveTypeLayout::U64 => {
            assert(value_bytes(v1).len() == 8 && value_bytes(v2).len() == 8);
            assert(value_bytes(v1) == bytes.subrange(pos, pos + 8));
            assert(value_bytes(v2) == bytes.subrange(pos, pos + 8));
        },
        MoveTypeLayout::U128 => {
            assert(value_bytes(v1).len() == 16 && value_bytes(v2).len() == 16);
            assert(value_bytes(v1) == bytes.subrange(pos, pos + 16));
            assert(value_bytes(v2) == bytes.subrange(pos, pos + 16));
        },
        MoveTypeLayout::Address => {
            assert(value_bytes(v1).len() == 32 && value_bytes(v2).len() == 32);
            assert(value_bytes(v1) == bytes.subrange(pos, pos + 32));
            assert(value_bytes(v2) == bytes.subrange(pos, pos + 32));
        },
        MoveTypeLayout::Vector(inner) => {
            match (v1, v2) {
                (MoveValueData::Vector(e1), MoveValueData::Vector(e2)) => {
                    lemma_starts_with_split(bytes, pos, uleb128(e1@.len()), values_bytes(e1@));
                    lemma_starts_with_split(bytes, pos, uleb128(e2@.len()), values_bytes(e2@));
                    lemma_uleb128_unique(bytes, pos, e1@.len(), e2@.len());
                    lemma_values_bytes_unique(
                        bytes,
                        pos + uleb128(e1@.len()).len(),
                        *inner,
                        e1@,
                        e2@,
                    );
                },
                _ => {
                    assert(false);
                },
            }
        },
        MoveTypeLayout::Struct(fields) => {
            match (v1, v2) {
                (MoveValueData::Struct(s1), MoveValueData::Struct(s2)) => {
                    lemma_fields_bytes_unique(bytes, pos, fields@, s1@, s2@);
                },
                _ => {
                    assert(false);
                },
            }
        },
    }
}

/// Two equally long runs of values of one layout whose encodings occur at
/// the same position encode to the same bytes.
pub proof fn lemma_values_bytes_unique(
    bytes: Seq<u8>,
    pos: int,
    t: MoveTypeLayout,
    s1: Seq<MoveValueData>,
    s2: Seq<MoveValueData>,
)
    requires
        s1.len() == s2.len(),
        all_conform(s1, t),
        all_conform(s2, t),
        starts_with_at(bytes, pos, values_bytes(s1)),
        starts_with_at(bytes, pos, values_bytes(s2)),
    ensures
        values_bytes(s1) == values_bytes(s2),
    decreases t, 1int, s1.len(),
{
    if s1.len() > 0 {
        assert(values_bytes(s1) == value_bytes(s1[0]) + values_bytes(
            s1.subrange(1, s1.len() as int),
        ));
        assert(values_bytes(s2) == value_bytes(s2[0]) + values_bytes(
            s2.subrange(1, s2.len() as int),
        ));
        lemma_starts_with_split(
            bytes,
            pos,
            value_bytes(s1[0]),
            values_bytes(s1.subrange(1, s1.len() as int)),
        );
        lemma_starts_with_split(
            bytes,
            pos,
            value_bytes(s2[0]),
            values_bytes(s2.subrange(1, s2.len() as int)),
        );
        lemma_value_bytes_unique(bytes, pos, t, s1[0], s2[0]);
        assert(all_conform(s1.subrange(1, s1.len() as int), t));
        assert(all_conform(s2.subrange(1, s2.len() as int), t));
        lemma_values_bytes_unique(
            bytes,
            pos + value_bytes(s1[0]).len(),
            t,
            s1.subrange(1, s1.len() as int),
            s2.subrange(1, s2.len() as int),
        );
    }
}

/// Two runs of values conforming positionally to one layout list whose
/// encodings occur at the same position encode to the same bytes.
pub proof fn lemma_fields_bytes_unique(
    bytes: Seq<u8>,
    pos: int,
    ts: Seq<MoveTypeLayout>,
    s1: Seq<MoveValueData>,
    s2: Seq<MoveValueData>,
)
    requires
        fields_conform(s1, ts),
        fields_conform(s2, ts),
        starts_with_at(bytes, pos, values_bytes(s1)),
        starts_with_at(bytes, pos, values_bytes(s2)),
    ensures
        values_bytes(s1) == values_bytes(s2),
    decreases ts, 1int, 0int,
{
    if s1.len() > 0 {
        assert(values_bytes(s1) == value_bytes(s1[0]) + values_bytes(
            s1.subrange(1, s1.len() as int),
        ));
        assert(values_bytes(s2) == value_bytes(s2[0]) + values_bytes(
            s2.subrange(1, s2.len() as int),
        ));
        lemma_starts_with_split(
            bytes,
            pos,
            value_bytes(s1[0]),
            values_bytes(s1.subrange(1, s1.len() as int)),
        );
        lemma_starts_with_split(
            bytes,
            pos,
            value_bytes(s2[0]),
            values_bytes(s2.subrange(1, s2.len() as int)),
        );
        lemma_value_bytes_unique(bytes, pos, ts[0], s1[0], s2[0]);
        assert(fields_conform(s1.subrange(1, s1.len() as int), ts.subrange(1, ts.len() as int)));
        assert(fields_conform(s2.subrange(1, s2.len() as int), ts.subrange(1, ts.len() as int)));
        lemma_fields_bytes_unique(
            bytes,
            pos + value_bytes(s1[0]).len(),
            ts.subrange(1, ts.len() as int),
            s1.subrange(1, s1.len() as int),
            s2.subrange(1, s2.len() as int),
        );
    }
}

/// Checks that a value conforms to a layout and is well-formed.
#[verifier::loop_isolation(false)]
pub fn check_value(v: &MoveValueData, t: &MoveTypeLayout) -> (r: bool)
    ensures
        r == (conforms(*v, *t) && value_wf(*v)),
    decreases *v,
{
    match v {
        MoveValueData::Bool(_) => matches!(t, MoveTypeLayout::Bool),
        MoveValueData::U8(_) => matches!(t, MoveTypeLayout::U8),
        MoveValueData::U64(_) => matches!(t, MoveTypeLayout::U64),
        MoveValueData::U128(_) => matches!(t, MoveTypeLayout::U128),
        MoveValueData::Address(a) => matches!(t, MoveTypeLayout::Address) && a.bytes.len() == 32,
        MoveValueData::Vector(elems) => {
            match t {
                MoveTypeLayout::Vector(inner) => {
                    if elems.len() >= 0x8000_0000 {
                        return false;
                    }
                    let mut i: usize = 0;
                    while i < elems.len()
                        invariant
                            0 <= i <= elems@.len(),
                            forall|j: int|
                                0 <= j < i ==> conforms(#[trigger] elems@[j], **inner) && value_wf(
                                    elems@[j]),
                        decreases elems@.len() - i,
                    {
                        if !check_value(&elems[i], inner) {
                            proof {
                                assert(!(conforms(elems@[i as int], **inner) && value_wf(
                                    elems@[i as int],
                                )));
                            }
                            return false;
                        }
                        i += 1;
                    }
                    true
                },
                _ => false,
            }
        },
        MoveValueData::Struct(vals) => {
            match t {
                MoveTypeLayout::Struct(fields) => {
                    if vals.len() != fields.len() {
                        return false;
                    }
                    let mut i: usize = 0;
                    while i < vals.len()
                        invariant
                            0 <= i <= vals@.len(),
                            vals@.len() == fields@.len(),
                            forall|j: int|
                                0 <= j < i ==> conforms(#[trigger] vals@[j], fields@[j])
                                    && value_wf(vals@[j]),
                        decreases vals@.len() - i,
                    {
                        if !check_value(&vals[i], &fields[i]) {
                            proof {
                                assert(!(conforms(vals@[i as int], fields@[i as int]) && value_wf(
                                    vals@[i as int],
                                )));
                            }
                            return false;
                        }
                        i += 1;
                    }
                    true
                },
                _ => false,
            }
        },
    }
}

/// Serializes a well-formed value into its canonical bytes.
#[verifier::loop_isolation(false)]
pub fn encode_move_value(v: &MoveValueData) -> (r: Vec<u8>)
    requires
        value_wf(*v),
    ensures
        r@ == value_bytes(*v),
    decreases *v,
{
    match v {
        MoveValueData::Bool(b) => bcs_bool_bytes(*b),
        MoveValueData::U8(x) => bcs_u8_bytes(*x),
        MoveValueData::U64(x) => bcs_u64_bytes(*x),
        MoveValueData::U128(x) => bcs_u128_bytes(*x),
        MoveValueData::Address(a) => copy_bytes(&a.bytes),
        MoveValueData::Vector(elems) => {
            let mut out = encode_uleb128(elems.len() as u64);
            let mut i: usize = 0;
            while i < elems.len()
                invariant
                    0 <= i <= elems@.len(),
                    value_wf(MoveValueData::Vector(*elems)),
                    out@ == uleb128(elems@.len()) + values_bytes(elems@.subrange(0, i as int)),
                decreases elems@.len() - i,
            {
                let piece = encode_move_value(&elems[i]);
                append_bytes(&mut out, &piece);
                proof {
                    assert(elems@.subrange(0, i + 1) =~= elems@.subrange(0, i as int).push(
                        elems@[i as int]));
                    lemma_values_bytes_push(elems@.subrange(0, i as int), elems@[i as int]);
                }
                i += 1;
            }
            proof {
                assert(elems@.subrange(0, elems@.len() as int) =~= elems@);
            }
            out
        },
        MoveValueData::Struct(vals) => {
            let mut out: Vec<u8> = Vec::new();
            let mut i: usize = 0;
            while i < vals.len()
                invariant
                    0 <= i <= vals@.len(),
                    value_wf(MoveValueData::Struct(*vals)),
                    out@ == values_bytes(vals@.subrange(0, i as int)),
                decreases vals@.len() - i,
            {
                let piece = encode_move_value(&vals[i]);
                append_bytes(&mut out, &piece);
                proof {
                    assert(vals@.subrange(0, i + 1) =~= vals@.subrange(0, i as int).push(
                        vals@[i as int]));
                    lemma_values_bytes_push(vals@.subrange(0, i as int), vals@[i as int]);
                }
                i += 1;
            }
            proof {
                assert(vals@.subrange(0, vals@.len() as int) =~= vals@);
            }
            out
        },
    }
}

/// With every run of `n` conforming elements pinned up to index `i` ending
/// at `cur`, and no conforming element encoded at `cur`, no such run is
/// encoded at `mid` at all.
pub proof fn lemma_element_run_blocked(
    bytes: Seq<u8>,
    mid: int,
    cur: int,
    i: int,
    n: nat,
    inner: MoveTypeLayout,
)
    requires
        0 <= mid <= cur <= bytes.len(),
        0 <= i < n,
        forall|ev: Seq<MoveValueData>|
            (ev.len() == n && all_conform(ev, inner) && starts_with_at(
                bytes,
                mid,
                #[trigger] values_bytes(ev),
            )) ==> values_bytes(ev.subrange(0, i)) == bytes.subrange(mid, cur),
        forall|v: MoveValueData|
            conforms(v, inner) && value_wf(v) ==> !starts_with_at(
                bytes,
                cur,
                #[trigger] value_bytes(v),
            ),
    ensures
        forall|ev: Seq<MoveValueData>|
            (ev.len() == n && all_conform(ev, inner)) ==> !starts_with_at(
                bytes,
                mid,
                #[trigger] values_bytes(ev),
            ),
{
    assert forall|ev: Seq<MoveValueData>|
        (ev.len() == n && all_conform(ev, inner)) implies !starts_with_at(
        bytes,
        mid,
        #[trigger] values_bytes(ev),
    ) by {
        if starts_with_at(bytes, mid, values_bytes(ev)) {
            assert(values_bytes(ev.subrange(0, i)) == bytes.subrange(mid, cur));
            lemma_values_bytes_split(ev, i);
            let tail = ev.subrange(i, ev.len() as int);
            assert(tail[0] == ev[i]);
            assert(tail.subrange(1, tail.len() as int) =~= ev.subrange(i + 1, ev.len() as int));
            assert(values_bytes(tail) == value_bytes(ev[i]) + values_bytes(
                ev.subrange(i + 1, ev.len() as int),
            ));
            lemma_starts_with_split(
                bytes,
                mid,
                values_bytes(ev.subrange(0, i)),
                values_bytes(tail),
            );
            lemma_starts_with_split(
                bytes,
                cur,
                value_bytes(ev[i]),
                values_bytes(ev.subrange(i + 1, ev.len() as int)),
            );
            assert(conforms(ev[i], inner) && value_wf(ev[i]));
            assert(false);
        }
    }
}

/// Extending the pinned prefix of every conforming run by the element parsed
/// at `cur`.
pub proof fn lemma_element_run_step(
    bytes: Seq<u8>,
    mid: int,
    cur: int,
    next: int,
    i: int,
    n: nat,
    inner: MoveTypeLayout,
    v: MoveValueData,
)
    requires
        0 <= mid <= cur <= next <= bytes.len(),
        0 <= i < n,
        forall|ev: Seq<MoveValueData>|
            (ev.len() == n && all_conform(ev, inner) && starts_with_at(
                bytes,
                mid,
                #[trigger] values_bytes(ev),
            )) ==> values_bytes(ev.subrange(0, i)) == bytes.subrange(mid, cur),
        conforms(v, inner),
        value_wf(v),
        value_bytes(v) == bytes.subrange(cur, next),
    ensures
        forall|ev: Seq<MoveValueData>|
            (ev.len() == n && all_conform(ev, inner) && starts_with_at(
                bytes,
                mid,
                #[trigger] values_bytes(ev),
            )) ==> values_bytes(ev.subrange(0, i + 1)) == bytes.subrange(mid, next),
{
    assert forall|ev: Seq<MoveValueData>|
        (ev.len() == n && all_conform(ev, inner) && starts_with_at(
            bytes,
            mid,
            #[trigger] values_bytes(ev),
        )) implies values_bytes(ev.subrange(0, i + 1)) == bytes.subrange(mid, next) by {
        assert(values_bytes(ev.subrange(0, i)) == bytes.subrange(mid, cur));
        lemma_values_bytes_split(ev, i);
        let tail = ev.subrange(i, ev.len() as int);
        assert(tail[0] == ev[i]);
        assert(tail.subrange(1, tail.len() as int) =~= ev.subrange(i + 1, ev.len() as int));
        assert(values_bytes(tail) == value_bytes(ev[i]) + values_bytes(
            ev.subrange(i + 1, ev.len() as int),
        ));
        lemma_starts_with_split(bytes, mid, values_bytes(ev.subrange(0, i)), values_bytes(tail));
        lemma_starts_with_split(
            bytes,
            cur,
            value_bytes(ev[i]),
            values_bytes(ev.subrange(i + 1, ev.len() as int)),
        );
        assert(starts_with_at(bytes, cur, value_bytes(v)));
        assert(conforms(ev[i], inner) && value_wf(ev[i]));
        lemma_value_bytes_unique(bytes, cur, inner, ev[i], v);
        assert(ev.subrange(0, i + 1) =~= ev.subrange(0, i).push(ev[i]));
        lemma_values_bytes_push(ev.subrange(0, i), ev[i]);
        assert(bytes.subrange(mid, next) =~= bytes.subrange(mid, cur) + bytes.subrange(cur, next));
    }
}

/// The positional analogue of the run lemmas, for struct fields.
pub proof fn lemma_field_run_blocked(
    bytes: Seq<u8>,
    pos: int,
    cur: int,
    i: int,
    fields: Seq<MoveTypeLayout>,
)
    requires
        0 <= pos <= cur <= bytes.len(),
        0 <= i < fields.len(),
        forall|ev: Seq<MoveValueData>|
            (fields_conform(ev, fields) && starts_with_at(
                bytes,
                pos,
                #[trigger] values_bytes(ev),
            )) ==> values_bytes(ev.subrange(0, i)) == bytes.subrange(pos, cur),
        forall|v: MoveValueData|
            conforms(v, fields[i]) && value_wf(v) ==> !starts_with_at(
                bytes,
                cur,
                #[trigger] value_bytes(v),
            ),
    ensures
        forall|ev: Seq<MoveValueData>|
            fields_conform(ev, fields) ==> !starts_with_at(
                bytes,
                pos,
                #[trigger] values_bytes(ev),
            ),
{
    assert forall|ev: Seq<MoveValueData>|
        fields_conform(ev, fields) implies !starts_with_at(
        bytes,
        pos,
        #[trigger] values_bytes(ev),
    ) by {
        if starts_with_at(bytes, pos, values_bytes(ev)) {
            assert(values_bytes(ev.subrange(0, i)) == bytes.subrange(pos, cur));
            lemma_values_bytes_split(ev, i);
            let tail = ev.subrange(i, ev.len() as int);
            assert(tail[0] == ev[i]);
            assert(tail.subrange(1, tail.len() as int) =~= ev.subrange(i + 1, ev.len() as int));
            assert(values_bytes(tail) == value_bytes(ev[i]) + values_bytes(
                ev.subrange(i + 1, ev.len() as int),
            ));
            lemma_starts_with_split(
                bytes,
                pos,
                values_bytes(ev.subrange(0, i)),
                values_bytes(tail),
            );
            lemma_starts_with_split(
                bytes,
                cur,
                value_bytes(ev[i]),
                values_bytes(ev.subrange(i + 1, ev.len() as int)),
            );
            assert(conforms(ev[i], fields[i]) && value_wf(ev[i]));
            assert(false);
        }
    }
}

/// Extending the pinned prefix of every positionally conforming run.
pub proof fn lemma_field_run_step(
    bytes: Seq<u8>,
    pos: int,
    cur: int,
    next: int,
    i: int,
    fields: Seq<MoveTypeLayout>,
    v: MoveValueData,
)
    requires
        0 <= pos <= cur <= next <= bytes.len(),
        0 <= i < fields.len(),
        forall|ev: Seq<MoveValueData>|
            (fields_conform(ev, fields) && starts_with_at(
                bytes,
                pos,
                #[trigger] values_bytes(ev),
            )) ==> values_bytes(ev.subrange(0, i)) == bytes.subrange(pos, cur),
        conforms(v, fields[i]),
        value_wf(v),
        value_bytes(v) == bytes.subrange(cur, next),
    ensures
        forall|ev: Seq<MoveValueData>|
            (fields_conform(ev, fields) && starts_with_at(
                bytes,
                pos,
                #[trigger] values_bytes(ev),
            )) ==> values_bytes(ev.subrange(0, i + 1)) == bytes.subrange(pos, next),
{
    assert forall|ev: Seq<MoveValueData>|
        (fields_conform(ev, fields) && starts_with_at(
            bytes,
            pos,
            #[trigger] values_bytes(ev),
        )) implies values_bytes(ev.subrange(0, i + 1)) == bytes.subrange(pos, next) by {
        assert(values_bytes(ev.subrange(0, i)) == bytes.subrange(pos, cur));
        lemma_values_bytes_split(ev, i);
        let tail = ev.subrange(i, ev.len() as int);
        assert(tail[0] == ev[i]);
        assert(tail.subrange(1, tail.len() as int) =~= ev.subrange(i + 1, ev.len() as int));
        assert(values_bytes(tail) == value_bytes(ev[i]) + values_bytes(
            ev.subrange(i + 1, ev.len() as int),
        ));
        lemma_starts_with_split(bytes, pos, values_bytes(ev.subrange(0, i)), values_bytes(tail));
        lemma_starts_with_split(
            bytes,
            cur,
            value_bytes(ev[i]),
            values_bytes(ev.subrange(i + 1, ev.len() as int)),
        );
        assert(starts_with_at(bytes, cur, value_bytes(v)));
        assert(conforms(ev[i], fields[i]) && value_wf(ev[i]));
        lemma_value_bytes_unique(bytes, cur, fields[i], ev[i], v);
        assert(ev.subrange(0, i + 1) =~= ev.subrange(0, i).push(ev[i]));
        lemma_values_bytes_push(ev.subrange(0, i), ev[i]);
        assert(bytes.subrange(pos, next) =~= bytes.subrange(pos, cur) + bytes.subrange(cur, next));
    }
}

/// Parses one value of the given layout. On success the consumed bytes are
/// exactly the canonical encoding of the returned value, which conforms to
/// the layout and is well-formed; on failure no conforming well-formed
/// value's encoding occurs at `pos`.
#[verifier::loop_isolation(false)]
#[verifier::rlimit(100)]
pub fn decode_move_value(t: &MoveTypeLayout, bytes: &Vec<u8>, pos: usize) -> (r: Option<
    (MoveValueData, usize),
>)
    ensures
        r matches Some(p) ==> {
            &&& pos <= p.1 <= bytes@.len()
            &&& conforms(p.0, *t)
            &&& value_wf(p.0)
            &&& value_bytes(p.0) == bytes@.subrange(pos as int, p.1 as int)
        },
        r is None ==> forall|v: MoveValueData|
            conforms(v, *t) && value_wf(v) ==> !starts_with_at(
                bytes@,
                pos as int,
                #[trigger] value_bytes(v),
            ),
    decreases *t,
{
    match t {
        MoveTypeLayout::Bool => {
            if pos >= bytes.len() {
                proof {
                    assert forall|v: MoveValueData|
                        conforms(v, *t) && value_wf(v) implies !starts_with_at(
                        bytes@,
                        pos as int,
                        #[trigger] value_bytes(v),
                    ) by {
                        match v {
                            MoveValueData::Bool(b2) => {
                                assert(value_bytes(v).len() == 1);
                            },
                            _ => {},
                        }
                    }
                }
                return None;
            }
            let b = bytes[pos];
            if b == 0 || b == 1 {
                let v = MoveValueData::Bool(b == 1);
                proof {
                    assert(value_bytes(v) =~= bytes@.subrange(pos as int, pos + 1));
                }
                Some((v, pos + 1))
            } else {
                proof {
                    assert forall|v: MoveValueData|
                        conforms(v, *t) && value_wf(v) implies !starts_with_at(
                        bytes@,
                        pos as int,
                        #[trigger] value_bytes(v),
                    ) by {
                        if starts_with_at(bytes@, pos as int, value_bytes(v)) {
                            match v {
                                MoveValueData::Bool(b2) => {
                                    let here = pos as int;
                                    assert(bytes@.subrange(here, here + 1)[0] == bytes@[here]);
                                    assert(false);
                                },
                                _ => {
                                    assert(false);
                                },
                            }
                        }
                    }
                }
                None
            }
        },
        MoveTypeLayout::U8 => {
            if pos >= bytes.len() {
                proof {
                    assert forall|v: MoveValueData|
                        conforms(v, *t) && value_wf(v) implies !starts_with_at(
                        bytes@,
                        pos as int,
                        #[trigger] value_bytes(v),
                    ) by {
                        match v {
                            MoveValueData::U8(x) => {
                                assert(value_bytes(v).len() == 1);
                            },
                            _ => {},
                        }
                    }
                }
                return None;
            }
            let v = MoveValueData::U8(bytes[pos]);
            proof {
                assert(value_bytes(v) =~= bytes@.subrange(pos as int, pos + 1));
            }
            Some((v, pos + 1))
        },
        MoveTypeLayout::U64 => {
            match decode_u64_le(bytes, pos) {
                Some((x, end)) => Some((MoveValueData::U64(x), end)),
                None => {
                    proof {
                        assert forall|v: MoveValueData|
                            conforms(v, *t) && value_wf(v) implies !starts_with_at(
                            bytes@,
                            pos as int,
                            #[trigger] value_bytes(v),
                        ) by {
                            match v {
                                MoveValueData::U64(x) => {
                                    assert(value_bytes(v).len() == 8);
                                },
                                _ => {},
                            }
                        }
                    }
                    None
                },
            }
        },
        MoveTypeLayout::U128 => {
            match decode_u128_le(bytes, pos) {
                Some((x, end)) => Some((MoveValueData::U128(x), end)),
                None => {
                    proof {
                        assert forall|v: MoveValueData|
                            conforms(v, *t) && value_wf(v) implies !starts_with_at(
                            bytes@,
                            pos as int,
                            #[trigger] value_bytes(v),
                        ) by {
                            match v {
                                MoveValueData::U128(x) => {
                                    assert(value_bytes(v).len() == 16);
                                },
                                _ => {},
                            }
                        }
                    }
                    None
                },
            }
        },
        MoveTypeLayout::Address => {
            match decode_address(bytes, pos) {
                Some((a, end)) => Some((MoveValueData::Address(a), end)),
                None => {
                    proof {
                        assert forall|v: MoveValueData|
                            conforms(v, *t) && value_wf(v) implies !starts_with_at(
                            bytes@,
                            pos as int,
                            #[trigger] value_bytes(v),
                        ) by {
                            match v {
                                MoveValueData::Address(a2) => {
                                    assert(value_bytes(v).len() == 32);
                                },
                                _ => {},
                            }
                        }
                    }
                    None
                },
            }
        },
        MoveTypeLayout::Vector(inner) => {
            let count_parsed = decode_uleb128(bytes, pos);
            proof {
                if !(count_parsed matches Some(p) && p.0 < 0x8000_0000) {
                    assert forall|v: MoveValueData|
                        conforms(v, *t) && value_wf(v) implies !starts_with_at(
                        bytes@,
                        pos as int,
                        #[trigger] value_bytes(v),
                    ) by {
                        if starts_with_at(bytes@, pos as int, value_bytes(v)) {
                            match v {
                                MoveValueData::Vector(ev) => {
                                    lemma_starts_with_split(
                                        bytes@,
                                        pos as int,
                                        uleb128(ev@.len()),
                                        values_bytes(ev@),
                                    );
                                    let cnt = ev@.len() as u64;
                                    assert(cnt as nat == ev@.len());
                                    if count_parsed is Some {
                                        let cp = count_parsed->0;
                                        lemma_uleb128_unique(
                                            bytes@,
                                            pos as int,
                                            cp.0 as nat,
                                            ev@.len(),
                                        );
                                    }
                                    assert(false);
                                },
                                _ => {
                                    assert(false);
                                },
                            }
                        }
                    }
                }
            }
            let (n, mid) = match count_parsed {
                Some(p) => p,
                None => {
                    return None;
                },
            };
            if n >= 0x8000_0000 {
                return None;
            }
            let n_usize = n as usize;
            let mut elems: Vec<MoveValueData> = Vec::new();
            let mut cur: usize = mid;
            proof {
                assert(values_bytes(elems@) =~= bytes@.subrange(mid as int, mid as int));
            }
            let mut i: usize = 0;
            while i < n_usize
                invariant
                    0 <= i <= n_usize,
                    elems@.len() == i,
                    mid <= cur <= bytes@.len(),
                    values_bytes(elems@) == bytes@.subrange(mid as int, cur as int),
                    forall|j: int|
                        0 <= j < i ==> conforms(#[trigger] elems@[j], **inner) && value_wf(
                            elems@[j]),
                    forall|ev: Seq<MoveValueData>|
                        (ev.len() == n as nat && all_conform(ev, **inner) && starts_with_at(
                            bytes@,
                            mid as int,
                            #[trigger] values_bytes(ev),
                        )) ==> values_bytes(ev.subrange(0, i as int)) == bytes@.subrange(
                            mid as int,
                            cur as int,
                        ),
                decreases n_usize - i,
            {
                let parsed = decode_move_value(inner, bytes, cur);
                proof {
                    if parsed is None {
                        lemma_element_run_blocked(
                            bytes@,
                            mid as int,
                            cur as int,
                            i as int,
                            n as nat,
                            **inner,
                        );
                        assert forall|v2: MoveValueData|
                            conforms(v2, *t) && value_wf(v2) implies !starts_with_at(
                            bytes@,
                            pos as int,
                            #[trigger] value_bytes(v2),
                        ) by {
                            if starts_with_at(bytes@, pos as int, value_bytes(v2)) {
                                match v2 {
                                    MoveValueData::Vector(ev) => {
                                        lemma_starts_with_split(
                                            bytes@,
                                            pos as int,
                                            uleb128(ev@.len()),
                                            values_bytes(ev@),
                                        );
                                        lemma_uleb128_unique(
                                            bytes@,
                                            pos as int,
                                            n as nat,
                                            ev@.len(),
                                        );
                                        assert(!starts_with_at(
                                            bytes@,
                                            mid as int,
                                            values_bytes(ev@),
                                        ));
                                        assert(false);
                                    },
                                    _ => {
                                        assert(false);
                                    },
                                }
                            }
                        }
                    }
                }
                let (v, next) = match parsed {
                    Some(p) => p,
                    None => {
                        return None;
                    },
                };
                proof {
                    lemma_values_bytes_push(elems@, v);
                    assert(bytes@.subrange(mid as int, next as int) =~= bytes@.subrange(
                        mid as int,
                        cur as int,
                    ) + bytes@.subrange(cur as int, next as int));
                    lemma_element_run_step(
                        bytes@,
                        mid as int,
                        cur as int,
                        next as int,
                        i as int,
                        n as nat,
                        **inner,
                        v,
                    );
                }
                elems.push(v);
                cur = next;
                i += 1;
            }
            let out = MoveValueData::Vector(elems);
            proof {
                assert(value_bytes(out) =~= bytes@.subrange(pos as int, cur as int));
            }
            Some((out, cur))
        },
        MoveTypeLayout::Struct(fields) => {
            if pos > bytes.len() {
                proof {
                    assert forall|v: MoveValueData|
                        conforms(v, *t) && value_wf(v) implies !starts_with_at(
                        bytes@,
                        pos as int,
                        #[trigger] value_bytes(v),
                    ) by {}
                }
                return None;
            }
            let mut vals: Vec<MoveValueData> = Vec::new();
            let mut cur: usize = pos;
            proof {
                assert(values_bytes(vals@) =~= bytes@.subrange(pos as int, pos as int));
            }
            let mut i: usize = 0;
            while i < fields.len()
                invariant
                    0 <= i <= fields@.len(),
                    vals@.len() == i,
                    pos <= cur <= bytes@.len(),
                    values_bytes(vals@) == bytes@.subrange(pos as int, cur as int),
                    forall|j: int|
                        0 <= j < i ==> conforms(#[trigger] vals@[j], fields@[j]) && value_wf(
                            vals@[j]),
                    forall|ev: Seq<MoveValueData>|
                        (fields_conform(ev, fields@) && starts_with_at(
                            bytes@,
                            pos as int,
                            #[trigger] values_bytes(ev),
                        )) ==> values_bytes(ev.subrange(0, i as int)) == bytes@.subrange(
                            pos as int,
                            cur as int,
                        ),
                decreases fields@.len() - i,
            {
                let parsed = decode_move_value(&fields[i], bytes, cur);
                proof {
                    if parsed is None {
                        lemma_field_run_blocked(bytes@, pos as int, cur as int, i as int, fields@);
                        assert forall|v2: MoveValueData|
                            conforms(v2, *t) && value_wf(v2) implies !starts_with_at(
                            bytes@,
                            pos as int,
                            #[trigger] value_bytes(v2),
                        ) by {
                            if starts_with_at(bytes@, pos as int, value_bytes(v2)) {
                                match v2 {
                                    MoveValueData::Struct(ev) => {
                                        assert(fields_conform(ev@, fields@));
                                        assert(!starts_with_at(
                                            bytes@,
                                            pos as int,
                                            values_bytes(ev@),
                                        ));
                                        assert(false);
                                    },
                                    _ => {
                                        assert(false);
                                    },
                                }
                            }
                        }
                    }
                }
                let (v, next) = match parsed {
                    Some(p) => p,
                    None => {
                        return None;
                    },
                };
                proof {
                    lemma_values_bytes_push(vals@, v);
                    assert(bytes@.subrange(pos as int, next as int) =~= bytes@.subrange(
                        pos as int,
                        cur as int,
                    ) + bytes@.subrange(cur as int, next as int));
                    lemma_field_run_step(
                        bytes@,
                        pos as int,
                        cur as int,
                        next as int,
                        i as int,
                        fields@,
                        v,
                    );
                }
                vals.push(v);
                cur = next;
                i += 1;
            }
            let out = MoveValueData::Struct(vals);
            proof {
                assert(value_bytes(out) =~= bytes@.subrange(pos as int, cur as int));
            }
            Some((out, cur))
        },
    }
}

/// Parses a whole byte string as one value of the given layout; the input
/// must be consumed exactly. Succeeds exactly when the input is the
/// canonical encoding of a conforming, well-formed value.
pub fn decode_move_value_exact(t: &MoveTypeLayout, bytes: &Vec<u8>) -> (r: Option<MoveValueData>)
    ensures
        r matches Some(v) ==> {
            &&& conforms(v, *t)
            &&& value_wf(v)
            &&& value_bytes(v) == bytes@
        },
        r is None ==> !(exists|v: MoveValueData|
            conforms(v, *t) && value_wf(v) && value_bytes(v) == bytes@),
{
    let parsed = decode_move_value(t, bytes, 0);
    proof {
        if exists|v: MoveValueData| conforms(v, *t) && value_wf(v) && value_bytes(v) == bytes@ {
            let v = choose|v: MoveValueData|
                conforms(v, *t) && value_wf(v) && value_bytes(v) == bytes@;
            assert(bytes@.subrange(0, bytes@.len() as int) =~= bytes@);
            assert(starts_with_at(bytes@, 0, value_bytes(v)));
            if parsed is None {
                assert(false);
            } else {
                let p = parsed->0;
                assert(starts_with_at(bytes@, 0, value_bytes(p.0))) by {
                    assert(value_bytes(p.0) == bytes@.subrange(0, p.1 as int));
                }
                lemma_value_bytes_unique(bytes@, 0, *t, v, p.0);
                assert(p.1 == bytes@.len());
            }
        }
    }
    match parsed {
        Some((v, end)) => {
            if end == bytes.len() {
                proof {
                    assert(bytes@.subrange(0, bytes@.len() as int) =~= bytes@);
                }
                Some(v)
            } else {
                None
            }
        },
        None => None,
    }
}

} // verus!
