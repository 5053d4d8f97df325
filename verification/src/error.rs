//! The failures a request can end in.

use vstd::prelude::*;
use crate::hello_world::ErrorCode;

verus! {

/// Why a request was aborted. Every failure aborts the whole request; the
/// caller always learns the specific kind.
#[derive(Clone, Copy, Debug, PartialEq, Eq, Structural)]
pub enum Error {
    /// No bump in range gives an identity outside key space, or the seeds
    /// cannot be derived from at all.
    DerivationExhausted,
    /// A record already lives at the address.
    AlreadyExists,
    /// The payload needs more room than was reserved for the record.
    InsufficientCapacity,
    /// The caller did not prove control of the record's authority.
    Unauthorized,
    /// No record lives at the address.
    NotFound,
    /// A delegation proof does not verify, or names another identity than
    /// the target's authority.
    UnauthorizedDelegation,
    /// The target component or its record is absent.
    TargetUnavailable,
    /// The payer holds less than the amount to move.
    InsufficientFunds,
    /// The destination record of an exchange could not be created.
    RecordCreationFailed,
    /// A quantity would leave the range of its type.
    ArithmeticOverflow,
    /// A failure that a component defines for itself.
    Component(ErrorCode),
}

} // verus!
