use vstd::prelude::*;
use crate::ledger_info::LedgerInfo;

verus! {

// ---------------------------------------------------------------------------
// The negotiated response format and the response envelope. Every successful
// response carries the resolved snapshot alongside the payload.
// ---------------------------------------------------------------------------

/// The format a caller asked for: a decoded, structured payload, or the
/// exact canonical binary bytes.
#[derive(Clone, Copy, PartialEq, Eq, Structural, Debug)]
pub enum AcceptType {
    Json,
    Bcs,
}

/// The status of a successful response.
#[derive(Clone, Copy, PartialEq, Eq, Structural, Debug)]
pub enum BasicResponseStatus {
    Success,
}

/// The payload of a response, in the chosen format.
#[derive(Debug)]
pub enum ResponsePayload<T> {
    /// The decoded, structured form.
    Json(T),
    /// The canonical binary form.
    Bcs(Vec<u8>),
}

/// A successful response: the payload plus the snapshot it was resolved
/// against.
#[derive(Debug)]
pub struct BasicResponse<T> {
    pub payload: ResponsePayload<T>,
    pub ledger_info: LedgerInfo,
    pub status: BasicResponseStatus,
}

impl<T> BasicResponse<T> {
    /// Wraps a decoded payload.
    pub fn from_json(payload: T, ledger_info: LedgerInfo) -> (r: BasicResponse<T>)
        ensures
            r.payload matches ResponsePayload::Json(p) && p == payload,
            r.ledger_info == ledger_info,
            r.status == BasicResponseStatus::Success,
    {
        BasicResponse { payload: ResponsePayload::Json(payload), ledger_info, status: BasicResponseStatus::Success }
    }

    /// Wraps canonical binary bytes.
    pub fn from_encoded(bytes: Vec<u8>, ledger_info: LedgerInfo) -> (r: BasicResponse<T>)
        ensures
            r.payload matches ResponsePayload::Bcs(b) && b@ == bytes@,
            r.ledger_info == ledger_info,
            r.status == BasicResponseStatus::Success,
    {
        BasicResponse { payload: ResponsePayload::Bcs(bytes), ledger_info, status: BasicResponseStatus::Success }
    }
}

} // verus!
