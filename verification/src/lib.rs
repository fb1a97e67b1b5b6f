//! A two-party escrow exchange: a proposer deposits a bundle of assets
//! together with a manifest of what it expects in return; a counterparty
//! must deposit exactly the expected bundle before either side can withdraw
//! the other's assets.
//!
//! The component itself lives in [`escrow`]; [`bundles`] and [`amounts`]
//! model the assets moved and expected, [`vaults`] the custody of deposits,
//! [`receipt`] the minted records and capability tokens, [`idsort`] the set
//! comparison behind the instance-deposit gate, and [`errors`] the ways an
//! operation can be refused.

pub mod amounts;
pub mod bundles;
pub mod errors;
pub mod escrow;
pub mod idsort;
pub mod receipt;
pub mod vaults;
