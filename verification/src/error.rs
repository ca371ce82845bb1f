use vstd::prelude::*;
use crate::bytes::Address;
use crate::ledger_info::LedgerInfo;
use crate::state_key::StructTag;

verus! {

// ---------------------------------------------------------------------------
// The error taxonomy. Every failure is classified at the point of detection
// into one of a fixed set of outcome kinds, and carries the structural
// context (key description, version, underlying cause) a caller needs for
// diagnosability. Turning that context into text is a presentation concern
// and stays outside this core.
// ---------------------------------------------------------------------------

/// The fixed set of outcome kinds.
#[derive(Clone, Copy, PartialEq, Eq, Structural, Debug)]
pub enum ErrorKind {
    /// Key absent at a valid, retained version; the caller may retry with a
    /// different key or version.
    NotFound,
    /// Version older than the retention window, or past the latest committed
    /// version; not recoverable.
    Gone,
    /// Malformed key, type or version supplied by the caller.
    BadInput,
    /// The decoded format was requested on an endpoint that serves only the
    /// raw format.
    FormatNotSupported,
    /// Storage inconsistency, decode mismatch, or a violated structural
    /// invariant; never retried, surfaced with diagnostic context.
    Internal,
    /// The liveness threshold was missed; only the health check reports this.
    ServiceUnavailable,
}

/// The operation a failure belongs to.
#[derive(Clone, Copy, PartialEq, Eq, Structural, Debug)]
pub enum Operation {
    GetResource,
    GetModule,
    GetTableItem,
    GetRawTableItem,
    GetRawStateValue,
    GetAccountProof,
    GetEpochChangeProof,
    HealthCheck,
}

/// The cause of a failure, with the context gathered where it was detected.
#[derive(Debug)]
pub enum ErrorCause {
    /// No resource of this type under this account at this version.
    ResourceNotFound { address: Address, tag: StructTag, version: u64 },
    /// No module of this name under this account at this version.
    ModuleNotFound { address: Address, name: Vec<u8>, version: u64 },
    /// No entry of this serialized key under this table handle at this
    /// version.
    TableItemNotFound { handle: Address, key: Vec<u8>, version: u64 },
    /// No value under this serialized state key at this version.
    StateValueNotFound { key: Vec<u8>, version: u64 },
    /// No state under the canonical account key of this address at this
    /// version.
    AccountStateNotFound { address: Address, version: u64 },
    /// No block at this height.
    BlockNotFound { height: u64 },
    /// The requested version is older than the retention window.
    VersionPruned { requested: u64, oldest: u64 },
    /// The requested version is newer than the latest committed version.
    VersionTooNew { requested: u64, latest: u64 },
    /// A module or struct identifier is not valid.
    InvalidIdentifier { operation: Operation },
    /// A typed table key does not conform to its declared key type.
    InvalidTableKey {},
    /// The requested epoch has no two predecessor checkpoints to anchor on.
    EpochTooLow { requested: u64 },
    /// The decoded format was requested on a raw-only operation.
    RawFormatOnly { operation: Operation },
    /// The store returned a checkpoint chain of the wrong length.
    EpochChainViolation { returned: u64, expected: u64 },
    /// An epoch-ending checkpoint carried no next epoch state.
    MissingNextEpochState { epoch: u64 },
    /// A value read from the ledger did not decode under its descriptor.
    ValueDecodeFailure { version: u64 },
    /// A caller-supplied serialized state key is not a canonical state-key
    /// encoding.
    StateKeyDecodeFailure {},
    /// The health threshold reaches before the start of the clock's epoch.
    ClockRangeViolation {},
    /// No type descriptor is known for this resource type.
    MissingLayout {},
    /// The ledger timestamp is behind the health threshold.
    LedgerTimestampBehind { timestamp_usecs: u64, threshold_usecs: u64 },
}

/// The deterministic classification of every cause into an outcome kind.
pub open spec fn classify(c: ErrorCause) -> ErrorKind {
    match c {
        ErrorCause::ResourceNotFound { .. } => ErrorKind::NotFound,
        ErrorCause::ModuleNotFound { .. } => ErrorKind::NotFound,
        ErrorCause::TableItemNotFound { .. } => ErrorKind::NotFound,
        ErrorCause::StateValueNotFound { .. } => ErrorKind::NotFound,
        ErrorCause::BlockNotFound { .. } => ErrorKind::NotFound,
        ErrorCause::AccountStateNotFound { .. } => ErrorKind::NotFound,
        ErrorCause::VersionPruned { .. } => ErrorKind::Gone,
        ErrorCause::VersionTooNew { .. } => ErrorKind::Gone,
        ErrorCause::InvalidIdentifier { .. } => ErrorKind::BadInput,
        ErrorCause::InvalidTableKey { .. } => ErrorKind::BadInput,
        ErrorCause::EpochTooLow { .. } => ErrorKind::BadInput,
        ErrorCause::RawFormatOnly { .. } => ErrorKind::FormatNotSupported,
        ErrorCause::StateKeyDecodeFailure { .. } => ErrorKind::BadInput,
        ErrorCause::EpochChainViolation { .. } => ErrorKind::Internal,
        ErrorCause::MissingNextEpochState { .. } => ErrorKind::Internal,
        ErrorCause::ValueDecodeFailure { .. } => ErrorKind::Internal,
        ErrorCause::ClockRangeViolation { .. } => ErrorKind::Internal,
        ErrorCause::MissingLayout { .. } => ErrorKind::Internal,
        ErrorCause::LedgerTimestampBehind { .. } => ErrorKind::ServiceUnavailable,
    }
}

impl ErrorCause {
    /// Classifies this cause.
    pub fn kind(&self) -> (k: ErrorKind)
        ensures
            k == classify(*self),
    {
        match self {
            ErrorCause::ResourceNotFound { .. } => ErrorKind::NotFound,
            ErrorCause::ModuleNotFound { .. } => ErrorKind::NotFound,
            ErrorCause::TableItemNotFound { .. } => ErrorKind::NotFound,
            ErrorCause::StateValueNotFound { .. } => ErrorKind::NotFound,
            ErrorCause::BlockNotFound { .. } => ErrorKind::NotFound,
            ErrorCause::AccountStateNotFound { .. } => ErrorKind::NotFound,
            ErrorCause::VersionPruned { .. } => ErrorKind::Gone,
            ErrorCause::VersionTooNew { .. } => ErrorKind::Gone,
            ErrorCause::InvalidIdentifier { .. } => ErrorKind::BadInput,
            ErrorCause::InvalidTableKey { .. } => ErrorKind::BadInput,
            ErrorCause::EpochTooLow { .. } => ErrorKind::BadInput,
            ErrorCause::RawFormatOnly { .. } => ErrorKind::FormatNotSupported,
            ErrorCause::StateKeyDecodeFailure { .. } => ErrorKind::BadInput,
            ErrorCause::EpochChainViolation { .. } => ErrorKind::Internal,
            ErrorCause::MissingNextEpochState { .. } => ErrorKind::Internal,
            ErrorCause::ValueDecodeFailure { .. } => ErrorKind::Internal,
            ErrorCause::ClockRangeViolation { .. } => ErrorKind::Internal,
            ErrorCause::MissingLayout { .. } => ErrorKind::Internal,
            ErrorCause::LedgerTimestampBehind { .. } => ErrorKind::ServiceUnavailable,
        }
    }
}

/// A classified failure: its kind always matches its cause, and the resolved
/// snapshot is attached once one has been resolved.
#[derive(Debug)]
pub struct StateApiError {
    pub kind: ErrorKind,
    pub cause: ErrorCause,
    pub ledger_info: Option<LedgerInfo>,
}

impl StateApiError {
    /// A well-formed error is classified exactly by its cause.
    pub open spec fn wf(self) -> bool {
        self.kind == classify(self.cause)
    }

    /// Classifies a cause detected before a snapshot was resolved.
    pub fn new(cause: ErrorCause) -> (r: StateApiError)
        ensures
            r.wf(),
            r.cause == cause,
            r.ledger_info is None,
    {
        let kind = cause.kind();
        StateApiError { kind, cause, ledger_info: None }
    }

    /// Classifies a cause detected after the snapshot was resolved; the
    /// snapshot rides along so even failing responses carry it.
    pub fn with_ledger_info(cause: ErrorCause, ledger_info: LedgerInfo) -> (r: StateApiError)
        ensures
            r.wf(),
            r.cause == cause,
            r.ledger_info == Some(ledger_info),
    {
        let kind = cause.kind();
        StateApiError { kind, cause, ledger_info: Some(ledger_info) }
    }
}

} // verus!
