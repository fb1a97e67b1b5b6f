//! The failure taxonomy of the escrow component. Every failed operation
//! leaves the component exactly as it was before the call.

use vstd::prelude::*;

verus! {

/// Why an escrow operation was refused.
#[derive(Clone, Copy, Debug, PartialEq, Eq, Structural)]
pub enum EscrowError {
    /// The counterparty's delivery does not exactly equal the expectation
    /// recorded at instantiation.
    ManifestMismatch,
    /// Settlement was invoked before the required validations completed.
    PrematureSettlement,
    /// The proposer's final claim was invoked before any counterparty
    /// deposit landed.
    PrematureClaim,
    /// Cancellation was invoked after a counterparty deposit had landed.
    StaleCancellation,
    /// A capability-gated operation was invoked without presenting the
    /// proposer capability.
    Unauthorized,
}

} // verus!
