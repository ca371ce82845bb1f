//! Resolution of versioned ledger state with cryptographic proof assembly.
//!
//! The library resolves account resources, modules and table entries at an
//! arbitrary historical or latest version of an append-only, versioned
//! key-value ledger, and bundles the cryptographic evidence (state-inclusion
//! proofs, transaction-accumulator proofs, epoch-change proof chains) that
//! binds that state to a signed checkpoint. Responses come in two formats:
//! a decoded, structured form and the exact canonical binary form.

pub mod basic;
pub mod bytes;
pub mod codec;
pub mod error;
pub mod ledger_info;
pub mod epoch_change;
pub mod move_value;
pub mod sparse_merkle_proof;
pub mod response;
pub mod state_api;
pub mod state_key;
pub mod store;
pub mod transaction;
pub mod trusted_state;
pub mod waypoint;
