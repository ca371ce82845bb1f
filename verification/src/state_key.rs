use vstd::prelude::*;
use crate::bytes::{Address, copy_bytes, zero_bytes, WORD_LENGTH};
use crate::codec::{
    length_prefixed, uleb128, starts_with_at, bcs_u8_bytes, bcs_byte_vec_bytes, append_bytes,
    copy_range, decode_uleb128, lemma_starts_with_split, lemma_uleb128_len, lemma_uleb128_unique,
};

verus! {

// ---------------------------------------------------------------------------
// Struct tags and state keys. A state key is the lookup key into the ledger
// store; equality between keys is defined over their canonical serialized
// form, so the store holds and compares encoded keys.
// ---------------------------------------------------------------------------

/// The fully qualified name of a struct type: defining address, module
/// identifier and struct identifier.
#[derive(Debug)]
pub struct StructTag {
    pub address: Address,
    pub module: Vec<u8>,
    pub name: Vec<u8>,
}

impl StructTag {
    pub open spec fn wf(self) -> bool {
        &&& self.address.wf()
        &&& self.module@.len() < 0x8000_0000
        &&& self.name@.len() < 0x8000_0000
    }
}

impl Clone for StructTag {
    fn clone(&self) -> (r: Self)
        ensures
            r.address@ == self.address@,
            r.module@ == self.module@,
            r.name@ == self.name@,
            r.wf() == self.wf(),
    {
        StructTag {
            address: self.address.clone(),
            module: copy_bytes(&self.module),
            name: copy_bytes(&self.name),
        }
    }
}

/// Canonical encoding of a struct tag: the raw 32 address bytes, then the
/// length-prefixed module and struct identifiers.
pub open spec fn struct_tag_bytes(t: StructTag) -> Seq<u8> {
    t.address@ + length_prefixed(t.module@) + length_prefixed(t.name@)
}

/// The lookup key for a single ledger state entry.
#[derive(Debug)]
pub enum StateKey {
    /// A resource of the given type under the given account.
    AccountResource { address: Address, tag: StructTag },
    /// A module published under the given account.
    Module { address: Address, name: Vec<u8> },
    /// An entry of the table with the given handle, keyed by serialized bytes.
    TableItem { handle: Address, key: Vec<u8> },
    /// An uninterpreted key, exactly as stored.
    Raw { key: Vec<u8> },
}

impl StateKey {
    pub open spec fn wf(self) -> bool {
        match self {
            StateKey::AccountResource { address, tag } => address.wf() && tag.wf(),
            StateKey::Module { address, name } => address.wf() && name@.len() < 0x8000_0000,
            StateKey::TableItem { handle, key } => handle.wf() && key@.len() < 0x8000_0000,
            StateKey::Raw { key } => key@.len() < 0x8000_0000,
        }
    }
}

/// Canonical encoding of a state key: a variant byte, then the variant's
/// fields. Key equality is equality of these bytes.
pub open spec fn state_key_bytes(k: StateKey) -> Seq<u8> {
    match k {
        StateKey::AccountResource { address, tag } => seq![0u8] + address@ + struct_tag_bytes(tag),
        StateKey::Module { address, name } => seq![1u8] + address@ + length_prefixed(name@),
        StateKey::TableItem { handle, key } => seq![2u8] + handle@ + length_prefixed(key@),
        StateKey::Raw { key } => seq![3u8] + length_prefixed(key@),
    }
}

/// Serializes a struct tag into its canonical bytes.
pub fn encode_struct_tag(t: &StructTag) -> (r: Vec<u8>)
    requires
        t.wf(),
    ensures
        r@ == struct_tag_bytes(*t),
{
    let mut out = copy_bytes(&t.address.bytes);
    let module_bytes = bcs_byte_vec_bytes(&t.module);
    append_bytes(&mut out, &module_bytes);
    let name_bytes = bcs_byte_vec_bytes(&t.name);
    append_bytes(&mut out, &name_bytes);
    proof {
        assert(out@ =~= struct_tag_bytes(*t));
    }
    out
}

/// Serializes a state key into its canonical bytes.
pub fn encode_state_key(k: &StateKey) -> (r: Vec<u8>)
    requires
        k.wf(),
    ensures
        r@ == state_key_bytes(*k),
{
    match k {
        StateKey::AccountResource { address, tag } => {
            let mut out = bcs_u8_bytes(0);
            append_bytes(&mut out, &address.bytes);
            let tag_bytes = encode_struct_tag(tag);
            append_bytes(&mut out, &tag_bytes);
            proof {
                assert(out@ =~= state_key_bytes(*k));
            }
            out
        },
        StateKey::Module { address, name } => {
            let mut out = bcs_u8_bytes(1);
            append_bytes(&mut out, &address.bytes);
            let name_bytes = bcs_byte_vec_bytes(name);
            append_bytes(&mut out, &name_bytes);
            proof {
                assert(out@ =~= state_key_bytes(*k));
            }
            out
        },
        StateKey::TableItem { handle, key } => {
            let mut out = bcs_u8_bytes(2);
            append_bytes(&mut out, &handle.bytes);
            let key_bytes = bcs_byte_vec_bytes(key);
            append_bytes(&mut out, &key_bytes);
            proof {
                assert(out@ =~= state_key_bytes(*k));
            }
            out
        },
        StateKey::Raw { key } => {
            let mut out = bcs_u8_bytes(3);
            let key_bytes = bcs_byte_vec_bytes(key);
            append_bytes(&mut out, &key_bytes);
            proof {
                assert(out@ =~= state_key_bytes(*k));
            }
            out
        },
    }
}

/// No length-prefixed byte string under the sequence cap occurs at `pos`.
pub open spec fn no_byte_str_at(bytes: Seq<u8>, pos: int) -> bool {
    forall|s: Seq<u8>|
        s.len() < 0x8000_0000 ==> !starts_with_at(bytes, pos, #[trigger] length_prefixed(s))
}

/// Two length-prefixed byte strings occurring at the same position are the
/// same string.
pub proof fn lemma_length_prefixed_unique(bytes: Seq<u8>, pos: int, s1: Seq<u8>, s2: Seq<u8>)
    requires
        starts_with_at(bytes, pos, length_prefixed(s1)),
        starts_with_at(bytes, pos, length_prefixed(s2)),
    ensures
        s1 == s2,
{
    lemma_starts_with_split(bytes, pos, uleb128(s1.len()), s1);
    lemma_starts_with_split(bytes, pos, uleb128(s2.len()), s2);
    lemma_uleb128_unique(bytes, pos, s1.len(), s2.len());
    assert(s1 =~= s2);
}

/// Parses a length-prefixed byte string. On failure no such string occurs at
/// `pos`.
pub fn decode_byte_str(bytes: &Vec<u8>, pos: usize) -> (r: Option<(Vec<u8>, usize)>)
    ensures
        r matches Some(p) ==> {
            &&& pos <= p.1 <= bytes@.len()
            &&& p.0@.len() < 0x8000_0000
            &&& length_prefixed(p.0@) == bytes@.subrange(pos as int, p.1 as int)
        },
        r is None ==> no_byte_str_at(bytes@, pos as int),
{
    let parsed = decode_uleb128(bytes, pos);
    proof {
        let failed = !(parsed matches Some(p) && p.0 < 0x8000_0000 && bytes@.len() - p.1 >= p.0);
        if failed {
            assert forall|s2: Seq<u8>|
                s2.len() < 0x8000_0000 implies !starts_with_at(
                bytes@,
                pos as int,
                #[trigger] length_prefixed(s2),
            ) by {
                if starts_with_at(bytes@, pos as int, length_prefixed(s2)) {
                    lemma_starts_with_split(bytes@, pos as int, uleb128(s2.len()), s2);
                    let n2 = s2.len() as u64;
                    assert(n2 as nat == s2.len());
                    match parsed {
                        None => {
                            assert(!starts_with_at(bytes@, pos as int, uleb128(n2 as nat)));
                            assert(false);
                        },
                        Some(p) => {
                            assert(starts_with_at(bytes@, pos as int, uleb128(p.0 as nat)));
                            lemma_uleb128_unique(bytes@, pos as int, p.0 as nat, s2.len());
                            // The string's bytes start right after the length.
                            assert(pos + uleb128(s2.len()).len() + s2.len() <= bytes@.len());
                            assert(p.1 == pos + uleb128(s2.len()).len());
                            assert(false);
                        },
                    }
                }
            }
        }
    }
    let (n, mid) = match parsed {
        Some(p) => p,
        None => {
            return None;
        },
    };
    if n >= 0x8000_0000 {
        return None;
    }
    let n_usize = n as usize;
    if bytes.len() - mid < n_usize {
        return None;
    }
    let end = mid + n_usize;
    let data = copy_range(bytes, mid, end);
    proof {
        assert(length_prefixed(data@) =~= bytes@.subrange(pos as int, end as int));
    }
    Some((data, end))
}

/// Parses a 32-byte address. On failure the input is too short.
pub fn decode_address(bytes: &Vec<u8>, pos: usize) -> (r: Option<(Address, usize)>)
    ensures
        r matches Some(p) ==> {
            &&& pos <= p.1 <= bytes@.len()
            &&& p.0.wf()
            &&& p.0@ == bytes@.subrange(pos as int, p.1 as int)
            &&& p.1 == pos + WORD_LENGTH
        },
        r is None ==> pos + WORD_LENGTH > bytes@.len(),
{
    if pos > bytes.len() || bytes.len() - pos < WORD_LENGTH {
        return None;
    }
    let end = pos + WORD_LENGTH;
    let data = copy_range(bytes, pos, end);
    Some((Address { bytes: data }, end))
}

/// No well-formed struct tag's encoding occurs at `pos`.
pub open spec fn no_struct_tag_at(bytes: Seq<u8>, pos: int) -> bool {
    forall|t: StructTag| t.wf() ==> !starts_with_at(bytes, pos, #[trigger] struct_tag_bytes(t))
}

/// Splits an occurrence of a struct tag encoding into its three parts.
pub proof fn lemma_struct_tag_parts(bytes: Seq<u8>, pos: int, t: StructTag)
    requires
        t.wf(),
        starts_with_at(bytes, pos, struct_tag_bytes(t)),
    ensures
        starts_with_at(bytes, pos, t.address@),
        starts_with_at(bytes, pos + 32, length_prefixed(t.module@)),
        starts_with_at(
            bytes,
            pos + 32 + length_prefixed(t.module@).len(),
            length_prefixed(t.name@),
        ),
{
    assert(struct_tag_bytes(t) == t.address@ + (length_prefixed(t.module@) + length_prefixed(
        t.name@,
    ))) by {
        assert(struct_tag_bytes(t) =~= t.address@ + (length_prefixed(t.module@) + length_prefixed(
            t.name@,
        )));
    }
    lemma_starts_with_split(
        bytes,
        pos,
        t.address@,
        length_prefixed(t.module@) + length_prefixed(t.name@),
    );
    lemma_starts_with_split(
        bytes,
        pos + 32,
        length_prefixed(t.module@),
        length_prefixed(t.name@),
    );
}

/// Two well-formed struct tags' encodings occurring at the same position are
/// the same bytes.
pub proof fn lemma_struct_tag_unique(bytes: Seq<u8>, pos: int, t1: StructTag, t2: StructTag)
    requires
        t1.wf(),
        t2.wf(),
        starts_with_at(bytes, pos, struct_tag_bytes(t1)),
        starts_with_at(bytes, pos, struct_tag_bytes(t2)),
    ensures
        struct_tag_bytes(t1) == struct_tag_bytes(t2),
{
    lemma_struct_tag_parts(bytes, pos, t1);
    lemma_struct_tag_parts(bytes, pos, t2);
    assert(t1.address@ =~= t2.address@);
    lemma_length_prefixed_unique(bytes, pos + 32, t1.module@, t2.module@);
    lemma_length_prefixed_unique(
        bytes,
        pos + 32 + length_prefixed(t1.module@).len(),
        t1.name@,
        t2.name@,
    );
    assert(struct_tag_bytes(t1) =~= struct_tag_bytes(t2));
}

/// Parses a struct tag. On failure no well-formed tag's encoding occurs at
/// `pos`.
pub fn decode_struct_tag(bytes: &Vec<u8>, pos: usize) -> (r: Option<(StructTag, usize)>)
    ensures
        r matches Some(p) ==> {
            &&& pos <= p.1 <= bytes@.len()
            &&& p.0.wf()
            &&& struct_tag_bytes(p.0) == bytes@.subrange(pos as int, p.1 as int)
        },
        r is None ==> no_struct_tag_at(bytes@, pos as int),
{
    let addr_parsed = decode_address(bytes, pos);
    proof {
        if addr_parsed is None {
            assert forall|t: StructTag|
                t.wf() implies !starts_with_at(bytes@, pos as int, #[trigger] struct_tag_bytes(t)) by {
                if starts_with_at(bytes@, pos as int, struct_tag_bytes(t)) {
                    lemma_uleb128_len(t.module@.len());
                    lemma_uleb128_len(t.name@.len());
                    assert(struct_tag_bytes(t).len() >= 34);
                    assert(pos + 32 < pos + struct_tag_bytes(t).len());
                    assert(false);
                }
            }
        }
    }
    let (address, p1) = match addr_parsed {
        Some(p) => p,
        None => {
            return None;
        },
    };
    let module_parsed = decode_byte_str(bytes, p1);
    proof {
        if module_parsed is None {
            assert forall|t: StructTag|
                t.wf() implies !starts_with_at(bytes@, pos as int, #[trigger] struct_tag_bytes(t)) by {
                if starts_with_at(bytes@, pos as int, struct_tag_bytes(t)) {
                    lemma_struct_tag_parts(bytes@, pos as int, t);
                    assert(false);
                }
            }
        }
    }
    let (module, p2) = match module_parsed {
        Some(p) => p,
        None => {
            return None;
        },
    };
    let name_parsed = decode_byte_str(bytes, p2);
    proof {
        if name_parsed is None {
            assert forall|t: StructTag|
                t.wf() implies !starts_with_at(bytes@, pos as int, #[trigger] struct_tag_bytes(t)) by {
                if starts_with_at(bytes@, pos as int, struct_tag_bytes(t)) {
                    lemma_struct_tag_parts(bytes@, pos as int, t);
                    // The parsed module pins the length prefix, so the tag's
                    // name starts exactly at the parsed position.
                    assert(starts_with_at(bytes@, p1 as int, length_prefixed(module@)));
                    lemma_length_prefixed_unique(bytes@, p1 as int, t.module@, module@);
                    assert(p2 == p1 + length_prefixed(t.module@).len());
                    assert(false);
                }
            }
        }
    }
    let (name, end) = match name_parsed {
        Some(p) => p,
        None => {
            return None;
        },
    };
    let tag = StructTag { address, module, name };
    proof {
        assert(struct_tag_bytes(tag) =~= bytes@.subrange(pos as int, end as int));
    }
    Some((tag, end))
}

/// An encoded state key starts with its variant byte and carries its parts
/// at fixed offsets.
pub proof fn lemma_state_key_parts(bytes: Seq<u8>, k: StateKey)
    requires
        k.wf(),
        state_key_bytes(k) == bytes,
    ensures
        bytes.len() >= 1,
        k matches StateKey::AccountResource { address, tag } ==> (bytes[0] == 0u8
            && starts_with_at(bytes, 33, struct_tag_bytes(tag)) && bytes.len() == 33
            + struct_tag_bytes(tag).len()),
        k matches StateKey::Module { address, name } ==> (bytes[0] == 1u8 && starts_with_at(
            bytes,
            33,
            length_prefixed(name@),
        ) && bytes.len() == 33 + length_prefixed(name@).len()),
        k matches StateKey::TableItem { handle, key } ==> (bytes[0] == 2u8 && starts_with_at(
            bytes,
            33,
            length_prefixed(key@),
        ) && bytes.len() == 33 + length_prefixed(key@).len()),
        k matches StateKey::Raw { key } ==> (bytes[0] == 3u8 && starts_with_at(
            bytes,
            1,
            length_prefixed(key@),
        ) && bytes.len() == 1 + length_prefixed(key@).len()),
{
    assert(bytes.subrange(0, bytes.len() as int) =~= bytes);
    match k {
        StateKey::AccountResource { address, tag } => {
            assert(bytes == seq![0u8] + (address@ + struct_tag_bytes(tag))) by {
                assert(bytes =~= seq![0u8] + (address@ + struct_tag_bytes(tag)));
            }
            lemma_starts_with_split(bytes, 0, seq![0u8], address@ + struct_tag_bytes(tag));
            lemma_starts_with_split(bytes, 1, address@, struct_tag_bytes(tag));
        },
        StateKey::Module { address, name } => {
            assert(bytes == seq![1u8] + (address@ + length_prefixed(name@))) by {
                assert(bytes =~= seq![1u8] + (address@ + length_prefixed(name@)));
            }
            lemma_starts_with_split(bytes, 0, seq![1u8], address@ + length_prefixed(name@));
            lemma_starts_with_split(bytes, 1, address@, length_prefixed(name@));
        },
        StateKey::TableItem { handle, key } => {
            assert(bytes == seq![2u8] + (handle@ + length_prefixed(key@))) by {
                assert(bytes =~= seq![2u8] + (handle@ + length_prefixed(key@)));
            }
            lemma_starts_with_split(bytes, 0, seq![2u8], handle@ + length_prefixed(key@));
            lemma_starts_with_split(bytes, 1, handle@, length_prefixed(key@));
        },
        StateKey::Raw { key } => {
            assert(bytes == seq![3u8] + length_prefixed(key@)) by {
                assert(bytes =~= seq![3u8] + length_prefixed(key@));
            }
            lemma_starts_with_split(bytes, 0, seq![3u8], length_prefixed(key@));
        },
    }
}

/// Parses a state key from its canonical bytes. Succeeds exactly when the
/// whole input is the canonical encoding of a well-formed key, and then
/// returns that key.
pub fn decode_state_key(bytes: &Vec<u8>) -> (r: Option<StateKey>)
    ensures
        r matches Some(k) ==> k.wf() && state_key_bytes(k) == bytes@,
        r is None ==> !(exists|k: StateKey| k.wf() && state_key_bytes(k) == bytes@),
{
    let ghost encodable = exists|k: StateKey| k.wf() && state_key_bytes(k) == bytes@;
    if bytes.len() == 0 {
        proof {
            if encodable {
                let k = choose|k: StateKey| k.wf() && state_key_bytes(k) == bytes@;
                lemma_state_key_parts(bytes@, k);
            }
        }
        return None;
    }
    let variant = bytes[0];
    if variant == 0 {
        let addr_parsed = decode_address(bytes, 1);
        proof {
            if addr_parsed is None && encodable {
                let k = choose|k: StateKey| k.wf() && state_key_bytes(k) == bytes@;
                lemma_state_key_parts(bytes@, k);
                match k {
                    StateKey::AccountResource { address, tag } => {
                        assert(bytes@.len() >= 33);
                        assert(false);
                    },
                    _ => {
                        assert(false);
                    },
                }
            }
        }
        let (address, p1) = match addr_parsed {
            Some(p) => p,
            None => {
                return None;
            },
        };
        let tag_parsed = decode_struct_tag(bytes, p1);
        proof {
            if tag_parsed is None && encodable {
                let k = choose|k: StateKey| k.wf() && state_key_bytes(k) == bytes@;
                lemma_state_key_parts(bytes@, k);
                match k {
                    StateKey::AccountResource { address: a2, tag } => {
                        assert(starts_with_at(bytes@, 33, struct_tag_bytes(tag)));
                        assert(false);
                    },
                    _ => {
                        assert(false);
                    },
                }
            }
        }
        let (tag, end) = match tag_parsed {
            Some(p) => p,
            None => {
                return None;
            },
        };
        if end != bytes.len() {
            proof {
                if encodable {
                    let k = choose|k: StateKey| k.wf() && state_key_bytes(k) == bytes@;
                    lemma_state_key_parts(bytes@, k);
                    match k {
                        StateKey::AccountResource { address: a2, tag: t2 } => {
                            assert(starts_with_at(bytes@, 33, struct_tag_bytes(tag))) by {
                                assert(struct_tag_bytes(tag) == bytes@.subrange(33, end as int));
                            }
                            lemma_struct_tag_unique(bytes@, 33, tag, t2);
                            assert(end == 33 + struct_tag_bytes(t2).len());
                            assert(false);
                        },
                        _ => {
                            assert(false);
                        },
                    }
                }
            }
            return None;
        }
        let k = StateKey::AccountResource { address, tag };
        proof {
            assert(state_key_bytes(k) =~= bytes@);
        }
        Some(k)
    } else if variant == 1 || variant == 2 {
        let addr_parsed = decode_address(bytes, 1);
        proof {
            if addr_parsed is None && encodable {
                let k = choose|k: StateKey| k.wf() && state_key_bytes(k) == bytes@;
                lemma_state_key_parts(bytes@, k);
                lemma_uleb128_len(0);
                match k {
                    StateKey::Module { address, name } => {
                        lemma_uleb128_len(name@.len());
                        assert(bytes@.len() >= 34);
                        assert(false);
                    },
                    StateKey::TableItem { handle, key } => {
                        lemma_uleb128_len(key@.len());
                        assert(bytes@.len() >= 34);
                        assert(false);
                    },
                    _ => {
                        assert(false);
                    },
                }
            }
        }
        let (address, p1) = match addr_parsed {
            Some(p) => p,
            None => {
                return None;
            },
        };
        let body_parsed = decode_byte_str(bytes, p1);
        proof {
            if body_parsed is None && encodable {
                let k = choose|k: StateKey| k.wf() && state_key_bytes(k) == bytes@;
                lemma_state_key_parts(bytes@, k);
                match k {
                    StateKey::Module { address: a2, name } => {
                        assert(!starts_with_at(bytes@, 33, length_prefixed(name@)));
                        assert(false);
                    },
                    StateKey::TableItem { handle, key } => {
                        assert(!starts_with_at(bytes@, 33, length_prefixed(key@)));
                        assert(false);
                    },
                    _ => {
                        assert(false);
                    },
                }
            }
        }
        let (body, end) = match body_parsed {
            Some(p) => p,
            None => {
                return None;
            },
        };
        if end != bytes.len() {
            proof {
                if encodable {
                    let k = choose|k: StateKey| k.wf() && state_key_bytes(k) == bytes@;
                    lemma_state_key_parts(bytes@, k);
                    assert(starts_with_at(bytes@, 33, length_prefixed(body@))) by {
                        assert(length_prefixed(body@) == bytes@.subrange(33, end as int));
                    }
                    match k {
                        StateKey::Module { address: a2, name } => {
                            lemma_length_prefixed_unique(bytes@, 33, name@, body@);
                            assert(false);
                        },
                        StateKey::TableItem { handle, key } => {
                            lemma_length_prefixed_unique(bytes@, 33, key@, body@);
                            assert(false);
                        },
                        _ => {
                            assert(false);
                        },
                    }
                }
            }
            return None;
        }
        if variant == 1 {
            let k = StateKey::Module { address, name: body };
            proof {
                assert(state_key_bytes(k) =~= bytes@);
            }
            Some(k)
        } else {
            let k = StateKey::TableItem { handle: address, key: body };
            proof {
                assert(state_key_bytes(k) =~= bytes@);
            }
            Some(k)
        }
    } else if variant == 3 {
        let body_parsed = decode_byte_str(bytes, 1);
        proof {
            if body_parsed is None && encodable {
                let k = choose|k: StateKey| k.wf() && state_key_bytes(k) == bytes@;
                lemma_state_key_parts(bytes@, k);
                match k {
                    StateKey::Raw { key } => {
                        assert(!starts_with_at(bytes@, 1, length_prefixed(key@)));
                        assert(false);
                    },
                    _ => {
                        assert(false);
                    },
                }
            }
        }
        let (body, end) = match body_parsed {
            Some(p) => p,
            None => {
                return None;
            },
        };
        if end != bytes.len() {
            proof {
                if encodable {
                    let k = choose|k: StateKey| k.wf() && state_key_bytes(k) == bytes@;
                    lemma_state_key_parts(bytes@, k);
                    assert(starts_with_at(bytes@, 1, length_prefixed(body@))) by {
                        assert(length_prefixed(body@) == bytes@.subrange(1, end as int));
                    }
                    match k {
                        StateKey::Raw { key } => {
                            lemma_length_prefixed_unique(bytes@, 1, key@, body@);
                            assert(false);
                        },
                        _ => {
                            assert(false);
                        },
                    }
                }
            }
            return None;
        }
        let k = StateKey::Raw { key: body };
        proof {
            assert(state_key_bytes(k) =~= bytes@);
        }
        Some(k)
    } else {
        proof {
            if encodable {
                let k = choose|k: StateKey| k.wf() && state_key_bytes(k) == bytes@;
                lemma_state_key_parts(bytes@, k);
            }
        }
        None
    }
}

// ---------------------------------------------------------------------------
// Identifier validity, as required of module and struct names.
// ---------------------------------------------------------------------------

pub open spec fn is_identifier_start(c: u8) -> bool {
    (0x61 <= c <= 0x7a) || (0x41 <= c <= 0x5a) || c == 0x5f
}

pub open spec fn is_identifier_char(c: u8) -> bool {
    is_identifier_start(c) || (0x30 <= c <= 0x39)
}

/// A valid identifier is non-empty ASCII, starts with a letter or an
/// underscore, and continues with letters, digits or underscores; a lone
/// underscore is not an identifier.
pub open spec fn is_valid_identifier(s: Seq<u8>) -> bool {
    &&& s.len() > 0
    &&& is_identifier_start(s[0])
    &&& (s[0] == 0x5f ==> s.len() >= 2)
    &&& forall|i: int| 0 < i < s.len() ==> is_identifier_char(#[trigger] s[i])
}

/// Checks that a module or struct name is a valid identifier.
pub fn verify_identifier(name: &Vec<u8>) -> (r: bool)
    ensures
        r == is_valid_identifier(name@),
{
    if name.len() == 0 {
        return false;
    }
    let c0 = name[0];
    if !((0x61 <= c0 && c0 <= 0x7a) || (0x41 <= c0 && c0 <= 0x5a) || c0 == 0x5f) {
        return false;
    }
    if c0 == 0x5f && name.len() < 2 {
        return false;
    }
    let mut i: usize = 1;
    while i < name.len()
        invariant
            1 <= i <= name@.len(),
            is_identifier_start(name@[0]),
            forall|j: int| 0 < j < i ==> is_identifier_char(#[trigger] name@[j]),
        decreases name@.len() - i,
    {
        let c = name[i];
        if !((0x61 <= c && c <= 0x7a) || (0x41 <= c && c <= 0x5a) || c == 0x5f || (0x30 <= c && c
            <= 0x39)) {
            return false;
        }
        i += 1;
    }
    true
}

// ---------------------------------------------------------------------------
// The canonical account-resource key used by the account proof.
// ---------------------------------------------------------------------------

/// The module identifier of the account resource ("account", in ASCII).
pub open spec fn account_module_name() -> Seq<u8> {
    seq![0x61u8, 0x63u8, 0x63u8, 0x6fu8, 0x75u8, 0x6eu8, 0x74u8]
}

/// The struct identifier of the account resource ("Account", in ASCII).
pub open spec fn account_struct_name() -> Seq<u8> {
    seq![0x41u8, 0x63u8, 0x63u8, 0x6fu8, 0x75u8, 0x6eu8, 0x74u8]
}

/// The address of the core framework (31 zero bytes, then 0x01).
pub open spec fn core_framework_address() -> Seq<u8> {
    zero_address_prefix() + seq![1u8]
}

pub open spec fn zero_address_prefix() -> Seq<u8> {
    Seq::new(31, |i: int| 0u8)
}

/// The spec-level account-resource key for an address.
pub open spec fn account_resource_key_spec(address: Seq<u8>) -> Seq<u8> {
    seq![0u8] + address + core_framework_address() + length_prefixed(account_module_name())
        + length_prefixed(account_struct_name())
}

/// Builds the state key of the canonical account resource for `address`.
pub fn account_resource_key(address: &Address) -> (r: StateKey)
    requires
        address.wf(),
    ensures
        r.wf(),
        state_key_bytes(r) == account_resource_key_spec(address@),
{
    let mut core_addr = zero_bytes(31);
    core_addr.push(1u8);
    proof {
        assert(core_addr@ =~= core_framework_address());
    }
    let module = vec![0x61u8, 0x63u8, 0x63u8, 0x6fu8, 0x75u8, 0x6eu8, 0x74u8];
    let name = vec![0x41u8, 0x63u8, 0x63u8, 0x6fu8, 0x75u8, 0x6eu8, 0x74u8];
    proof {
        assert(module@ =~= account_module_name());
        assert(name@ =~= account_struct_name());
    }
    let tag = StructTag { address: Address { bytes: core_addr }, module, name };
    let k = StateKey::AccountResource { address: address.clone(), tag };
    proof {
        assert(state_key_bytes(k) =~= account_resource_key_spec(address@));
    }
    k
}

} // verus!
