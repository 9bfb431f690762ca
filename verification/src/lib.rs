//! A content-addressed object store with role-gated mutation and external
//! settlement accounting.
//!
//! The crate derives a deterministic content identifier for submitted bytes,
//! stores payloads under a hard size limit, keeps a per-object account
//! ledger, and drives a DAO state machine that ties stored objects to
//! externally negotiated storage deals and settles rewards with the
//! providers that fulfilled them.

use vstd::prelude::*;

pub mod account;
pub mod dao;
pub mod ids;
pub mod roles;
pub mod store;
pub mod system;

verus! {

/// Errors returned by the store and by the DAO state machine.
///
/// Every fallible operation reports exactly which precondition or external
/// call failed; no failure is silently swallowed.
#[derive(Clone, Copy, Debug, PartialEq, Eq, Structural)]
pub enum CoreError {
    /// The payload exceeds the store's configured size limit.
    PayloadTooLarge,
    /// No object or record exists for the given identifier.
    NotFound,
    /// The caller lacks the role the operation requires.
    Unauthorized,
    /// The settlement gateway refused to open a deal.
    DealRejected,
    /// The settlement gateway could not transfer the funds.
    TransferFailed,
    /// The deal's reward has already been paid out.
    AlreadySettled,
    /// The DAO state has already been constructed.
    AlreadyInitialized,
    /// Distinct bytes produced an identifier that is already taken.
    IdentifierCollision,
}

} // verus!
