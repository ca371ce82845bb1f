use vstd::prelude::*;
use crate::codec::{u64_le, bcs_u64_bytes, append_bytes};
use crate::error::{ErrorCause, ErrorKind, StateApiError};
use crate::ledger_info::LedgerInfo;
use crate::response::{AcceptType, BasicResponse, ResponsePayload};
use crate::store::LedgerStore;

verus! {

// ---------------------------------------------------------------------------
// The basic API: health checking and ledger diagnostics. The clock is the
// transport's concern; the health decision takes the current time as a
// plain value.
// ---------------------------------------------------------------------------

/// Basic API: health checking and diagnostics over the injected store.
pub struct BasicApi {
    pub store: LedgerStore,
}

/// Representation of a successful health check.
#[derive(Debug)]
pub struct HealthCheckSuccess {
    pub message: String,
}

impl HealthCheckSuccess {
    pub fn new() -> (r: HealthCheckSuccess)
        ensures
            r.message@ == "aptos-node:ok"@,
    {
        HealthCheckSuccess { message: "aptos-node:ok".to_string() }
    }
}

/// The ledger diagnostics payload.
#[derive(Clone, Copy, PartialEq, Eq, Structural, Debug)]
pub struct TestPayload {
    pub li_version: u64,
    pub first_viable_version: u64,
    pub latest_state_checkpoint: u64,
    pub snapshot_before: u64,
}

/// Canonical encoding of the diagnostics payload: its four versions.
pub open spec fn test_payload_bytes(p: TestPayload) -> Seq<u8> {
    u64_le(p.li_version) + u64_le(p.first_viable_version) + u64_le(p.latest_state_checkpoint)
        + u64_le(p.snapshot_before)
}

/// Serializes the diagnostics payload.
pub fn encode_test_payload(p: &TestPayload) -> (r: Vec<u8>)
    ensures
        r@ == test_payload_bytes(*p),
{
    let mut out = bcs_u64_bytes(p.li_version);
    let fv = bcs_u64_bytes(p.first_viable_version);
    append_bytes(&mut out, &fv);
    let cp = bcs_u64_bytes(p.latest_state_checkpoint);
    append_bytes(&mut out, &cp);
    let sb = bcs_u64_bytes(p.snapshot_before);
    append_bytes(&mut out, &sb);
    proof {
        assert(out@ =~= test_payload_bytes(*p));
    }
    out
}

/// The diagnostics payload a well-formed store yields: absent checkpoint and
/// snapshot versions default to zero.
pub open spec fn expected_test_payload(s: LedgerStore) -> TestPayload {
    TestPayload {
        li_version: s.latest_version_spec(),
        first_viable_version: s.first_viable_version,
        latest_state_checkpoint: match s.latest_state_checkpoint {
            Some(v) => v,
            None => 0,
        },
        snapshot_before: match s.snapshot_before {
            Some(v) => v,
            None => 0,
        },
    }
}

impl BasicApi {
    /// Decides whether the node is healthy: with no threshold the check
    /// always succeeds; with one, the latest ledger timestamp must be no
    /// older than the current time minus the threshold. The current time
    /// arrives as a plain value of microseconds since the Unix epoch.
    pub fn healthy(&self, duration_secs: Option<u32>, now_usecs: u64) -> (r: Result<
        (HealthCheckSuccess, LedgerInfo),
        StateApiError,
    >)
        requires
            self.store.wf(),
        ensures
            ({
                let s = self.store;
                let ts = s.snapshot_spec().ledger_timestamp;
                match duration_secs {
                    None => r matches Ok(p) && p.1 == s.snapshot_spec(),
                    Some(d) => {
                        let threshold = (d as int) * 1_000_000;
                        if threshold > now_usecs {
                            r matches Err(e) && e.wf() && e.kind == ErrorKind::Internal && e.cause
                                == (ErrorCause::ClockRangeViolation {}) && e.ledger_info == Some(
                                s.snapshot_spec(),
                            )
                        } else if ts < now_usecs - threshold {
                            r matches Err(e) && e.wf() && e.kind == ErrorKind::ServiceUnavailable
                                && e.cause == (ErrorCause::LedgerTimestampBehind {
                                timestamp_usecs: ts,
                                threshold_usecs: (now_usecs - threshold) as u64,
                            }) && e.ledger_info == Some(s.snapshot_spec())
                        } else {
                            r matches Ok(p) && p.1 == s.snapshot_spec()
                        }
                    },
                }
            }),
    {
        let ledger_info = self.store.latest_ledger_info();
        if let Some(duration) = duration_secs {
            let threshold_width: u64 = (duration as u64) * 1_000_000;
            if threshold_width > now_usecs {
                return Err(
                    StateApiError::with_ledger_info(ErrorCause::ClockRangeViolation {}, ledger_info),
                );
            }
            let expectation = now_usecs - threshold_width;
            let timestamp = ledger_info.timestamp();
            if timestamp < expectation {
                return Err(
                    StateApiError::with_ledger_info(
                        ErrorCause::LedgerTimestampBehind {
                            timestamp_usecs: timestamp,
                            threshold_usecs: expectation,
                        },
                        ledger_info,
                    ),
                );
            }
        }
        Ok((HealthCheckSuccess::new(), ledger_info))
    }

    /// Assembles the ledger diagnostics: the latest version, the first
    /// viable version, and the latest state checkpoint and snapshot
    /// versions, each defaulting to zero when the store has none.
    pub fn test(&self, accept_type: &AcceptType) -> (r: Result<
        BasicResponse<TestPayload>,
        StateApiError,
    >)
        requires
            self.store.wf(),
        ensures
            ({
                let s = self.store;
                r matches Ok(resp) && resp.ledger_info == s.snapshot_spec() && (match *accept_type {
                    AcceptType::Json => resp.payload matches ResponsePayload::Json(p) && p
                        == expected_test_payload(s),
                    AcceptType::Bcs => resp.payload matches ResponsePayload::Bcs(b) && b@
                        == test_payload_bytes(expected_test_payload(s)),
                })
            }),
    {
        let (ledger_info, ledger_version) = match self.store.state_view(None) {
            Ok(p) => p,
            Err(_) => {
                return vstd::pervasive::unreached();
            },
        };
        let payload = TestPayload {
            li_version: ledger_version,
            first_viable_version: self.store.first_viable_version,
            latest_state_checkpoint: match self.store.latest_state_checkpoint {
                Some(v) => v,
                None => 0,
            },
            snapshot_before: match self.store.snapshot_before {
                Some(v) => v,
                None => 0,
            },
        };
        match accept_type {
            AcceptType::Json => Ok(BasicResponse::from_json(payload, ledger_info)),
            AcceptType::Bcs => {
                let bytes = encode_test_payload(&payload);
                Ok(BasicResponse::from_encoded(bytes, ledger_info))
            },
        }
    }
}

} // verus!
