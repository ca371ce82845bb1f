use vstd::prelude::*;
use crate::bytes::HashValue;
use crate::codec::{u64_le, length_prefixed, bcs_u64_bytes, bcs_byte_vec_bytes, append_bytes};

verus! {

/// A trusted anchor: the version of a checkpoint together with that
/// checkpoint's commitment digest, as the cryptographic collaborator
/// computed it.
pub struct Waypoint {
    pub version: u64,
    pub value: HashValue,
}

/// Spec-level image of a waypoint.
pub struct WaypointView {
    pub version: u64,
    pub value: Seq<u8>,
}

impl View for Waypoint {
    type V = WaypointView;

    open spec fn view(&self) -> WaypointView {
        WaypointView { version: self.version, value: self.value@ }
    }
}

impl Waypoint {
    pub open spec fn wf(self) -> bool {
        self.value.wf()
    }

    /// Builds the waypoint for a checkpoint at `version` whose commitment
    /// digest is `value`.
    pub fn new(version: u64, value: HashValue) -> (r: Waypoint)
        ensures
            r.version == version,
            r.value@ == value@,
            value.wf() ==> r.wf(),
    {
        Waypoint { version, value }
    }
}

impl Clone for Waypoint {
    fn clone(&self) -> (r: Self)
        ensures
            r@ == self@,
            self.wf() ==> r.wf(),
    {
        Waypoint { version: self.version, value: self.value.clone() }
    }
}

/// Canonical encoding of a waypoint.
pub open spec fn waypoint_bytes(w: WaypointView) -> Seq<u8> {
    u64_le(w.version) + length_prefixed(w.value)
}

/// Serializes a waypoint.
pub fn encode_waypoint(w: &Waypoint) -> (r: Vec<u8>)
    requires
        w.wf(),
    ensures
        r@ == waypoint_bytes(w@),
{
    let mut out = bcs_u64_bytes(w.version);
    let value = bcs_byte_vec_bytes(&w.value.bytes);
    append_bytes(&mut out, &value);
    proof {
        assert(out@ =~= waypoint_bytes(w@));
    }
    out
}

} // verus!
