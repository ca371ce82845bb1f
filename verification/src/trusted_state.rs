use vstd::prelude::*;
use crate::codec::{bcs_u8_bytes, append_bytes};
use crate::ledger_info::{EpochState, EpochStateView, epoch_state_bytes, encode_epoch_state};
use crate::waypoint::{Waypoint, WaypointView, waypoint_bytes, encode_waypoint};

verus! {

/// The variant tag that marks an epoch-state trusted anchor.
pub const TRUSTED_STATE_EPOCH_STATE_VARIANT: u8 = 1;

/// A verifier anchor a client can start from: a waypoint plus the validator
/// set valid for checking signatures within the anchored epoch.
pub struct TrustedState {
    /// Variant tag of the anchor; an epoch-state anchor carries 1.
    pub variant: u8,
    pub data: TrustedStateData,
}

pub struct TrustedStateData {
    pub waypoint: Waypoint,
    pub epoch_state: EpochState,
}

/// Spec-level image of a trusted anchor.
pub struct TrustedStateView {
    pub variant: u8,
    pub waypoint: WaypointView,
    pub epoch_state: EpochStateView,
}

impl View for TrustedState {
    type V = TrustedStateView;

    open spec fn view(&self) -> TrustedStateView {
        TrustedStateView {
            variant: self.variant,
            waypoint: self.data.waypoint@,
            epoch_state: self.data.epoch_state@,
        }
    }
}

impl TrustedState {
    pub open spec fn wf(self) -> bool {
        &&& self.variant == TRUSTED_STATE_EPOCH_STATE_VARIANT
        &&& self.data.waypoint.wf()
        &&& self.data.epoch_state.wf()
    }

    /// Builds an epoch-state anchor from a waypoint and the epoch's
    /// validator set.
    pub fn new_epoch_state(waypoint: Waypoint, epoch_state: EpochState) -> (r: TrustedState)
        ensures
            r.variant == TRUSTED_STATE_EPOCH_STATE_VARIANT,
            r.data.waypoint@ == waypoint@,
            r.data.epoch_state@ == epoch_state@,
            waypoint.wf() && epoch_state.wf() ==> r.wf(),
    {
        TrustedState {
            variant: TRUSTED_STATE_EPOCH_STATE_VARIANT,
            data: TrustedStateData { waypoint, epoch_state },
        }
    }
}

/// Canonical encoding of a trusted anchor: the variant tag, then the
/// waypoint and the epoch state.
pub open spec fn trusted_state_bytes(t: TrustedStateView) -> Seq<u8> {
    seq![t.variant] + waypoint_bytes(t.waypoint) + epoch_state_bytes(t.epoch_state)
}

/// Serializes a trusted anchor.
pub fn encode_trusted_state(t: &TrustedState) -> (r: Vec<u8>)
    requires
        t.wf(),
    ensures
        r@ == trusted_state_bytes(t@),
{
    let mut out = bcs_u8_bytes(t.variant);
    let wp = encode_waypoint(&t.data.waypoint);
    append_bytes(&mut out, &wp);
    let es = encode_epoch_state(&t.data.epoch_state);
    append_bytes(&mut out, &es);
    proof {
        assert(out@ =~= trusted_state_bytes(t@));
    }
    out
}

} // verus!
