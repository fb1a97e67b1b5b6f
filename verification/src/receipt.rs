//! The trade record and the capability tokens. The receipt captures both
//! manifests — what the proposer deposited and what it expects in return —
//! together with the one mutable field, the `ready_to_claim` flag. A
//! structurally identical record backs the proposer's capability token.

use vstd::prelude::*;

use crate::amounts::AmountMap;

verus! {

/// The single-unit credential the component keeps to itself; presenting it is
/// the only way to mutate a minted record's `ready_to_claim` flag.
pub struct InternalAuthority {
    pub id: u64,
}

/// The bearer credential handed to the proposer at instantiation; presenting
/// it admits cancellation and the proposer's final claim.
pub struct ProposerCap {
    pub id: u64,
}

/// An on-ledger record of a trade: the proposer's deposit manifest, the
/// counterparty's expected manifest, display metadata, and the one mutable
/// field, `ready_to_claim`.
pub struct Receipt {
    /// Human-readable trade label.
    pub label: String,
    /// Identifier of the authority whose presentation admits updates.
    pub update_authority: u64,
    /// Instance identifiers the proposer deposited, in deposit order.
    pub a_instances: Vec<u64>,
    /// Asset-type → quantity manifest of the proposer's fungible deposit.
    pub a_amounts: AmountMap,
    /// Instance identifiers the counterparty must deliver.
    pub b_instances: Vec<u64>,
    /// Asset-type → quantity manifest the counterparty must deliver.
    pub b_amounts: AmountMap,
    /// Becomes true exactly once, when settlement completes; never reverses.
    pub ready_to_claim: bool,
}

/// The two records agree on everything but the `ready_to_claim` flag.
pub open spec fn same_record(a: Receipt, b: Receipt) -> bool {
    &&& a.label@ == b.label@
    &&& a.update_authority == b.update_authority
    &&& a.a_instances@ == b.a_instances@
    &&& a.a_amounts.entries@ == b.a_amounts.entries@
    &&& a.b_instances@ == b.b_instances@
    &&& a.b_amounts.entries@ == b.b_amounts.entries@
}

impl Receipt {
    /// Flips the record to ready. Updating a minted record requires
    /// presenting the authority it was minted under.
    pub fn set_ready(&mut self, authority: &InternalAuthority)
        requires
            authority.id == old(self).update_authority,
        ensures
            final(self).ready_to_claim,
            same_record(*final(self), *old(self)),
    {
        self.ready_to_claim = true;
    }
}

} // verus!
