//! End-to-end exercises of the escrow trade component: instantiation,
//! deposit validation, settlement, cancellation and the final claim.

use barter::amounts::AmountMap;
use barter::bundles::{AssetBundle, BundleContents, FungibleBundle, InstanceBundle};
use barter::errors::EscrowError;
use barter::escrow::Barter;
use barter::receipt::ProposerCap;

fn amap(entries: &[(u64, u128)]) -> AmountMap {
    let mut m = AmountMap::new();
    for (k, v) in entries {
        let ok = m.add_amount(*k, *v);
        assert!(ok);
    }
    m
}

fn inst(asset_type: u64, ids: &[u64]) -> InstanceBundle {
    InstanceBundle { asset_type, instance_ids: ids.to_vec() }
}

fn fung(asset_type: u64, amount: u128) -> FungibleBundle {
    FungibleBundle { asset_type, amount }
}

/// The trade of the worked scenario: the proposer deposits 10 units of
/// fungible type 7 and the unique instance 100 of collection 2, expecting
/// 5 units of type 9 and no instances.
fn scenario_trade() -> (Barter, ProposerCap) {
    Barter::lets_barter_partner_permitted_clock(
        "worked example".to_string(),
        vec![inst(2, &[100])],
        vec![fung(7, 10)],
        Vec::new(),
        amap(&[(9, 5)]),
        11,
        22,
    )
}

#[test]
fn manifest_fidelity_on_both_records() {
    let (c, cap) = Barter::lets_barter_partner_permitted_clock(
        "fidelity".to_string(),
        vec![inst(2, &[100, 101]), inst(3, &[200])],
        vec![fung(7, 4), fung(8, 1), fung(7, 6)],
        vec![500, 501],
        amap(&[(9, 5)]),
        11,
        22,
    );
    assert_eq!(cap.id, 22);
    assert_eq!(c.a_vault_key, 22);
    assert_eq!(c.badge_sweeper.id, 11);
    // The recorded proposer manifest aggregates the supplied bundles:
    // instance identifiers in deposit order, quantities summed per type.
    assert_eq!(c.escrow_receipt.a_instances, vec![100, 101, 200]);
    assert_eq!(c.escrow_receipt.a_amounts.get(7), Some(10));
    assert_eq!(c.escrow_receipt.a_amounts.get(8), Some(1));
    assert_eq!(c.escrow_receipt.a_amounts.get(9), None);
    assert_eq!(c.escrow_receipt.b_instances, vec![500, 501]);
    assert_eq!(c.escrow_receipt.b_amounts.get(9), Some(5));
    assert!(!c.escrow_receipt.ready_to_claim);
    // The proposer's token record mirrors the receipt.
    assert_eq!(c.a_key_record.a_instances, vec![100, 101, 200]);
    assert_eq!(c.a_key_record.a_amounts.get(7), Some(10));
    assert_eq!(c.a_key_record.b_instances, vec![500, 501]);
    assert!(!c.a_key_record.ready_to_claim);
    // Custody: one slot per asset type, bundles of one type accumulated.
    assert_eq!(c.a_nft_vaults.slots.len(), 4);
    assert_eq!(
        c.a_nft_vaults.slots[0],
        AssetBundle { asset_type: 2, contents: BundleContents::Instances(vec![100, 101]) },
    );
    assert_eq!(
        c.a_nft_vaults.slots[1],
        AssetBundle { asset_type: 3, contents: BundleContents::Instances(vec![200]) },
    );
    assert_eq!(
        c.a_nft_vaults.slots[2],
        AssetBundle { asset_type: 7, contents: BundleContents::Fungible(10) },
    );
    assert_eq!(
        c.a_nft_vaults.slots[3],
        AssetBundle { asset_type: 8, contents: BundleContents::Fungible(1) },
    );
    assert_eq!(c.b_nft_vaults.slots.len(), 0);
    assert!(!c.nfts_validated);
    assert!(!c.tokens_validated);
}

#[test]
fn scenario_full_trade() {
    let (mut c, cap) = scenario_trade();
    // The counterparty delivers exactly 5 units of type 9.
    let r = c.b_deposit_tokens(vec![fung(9, 5)]);
    assert_eq!(r, Ok(()));
    assert!(c.tokens_validated);
    // No instances were expected, so that half auto-satisfies and anyone may
    // settle; the drain returns the proposer's full deposit.
    let out = c.b_claims_a_assets().unwrap();
    assert_eq!(out.len(), 2);
    assert_eq!(
        out[0],
        AssetBundle { asset_type: 2, contents: BundleContents::Instances(vec![100]) },
    );
    assert_eq!(out[1], AssetBundle { asset_type: 7, contents: BundleContents::Fungible(10) });
    assert!(c.escrow_receipt.ready_to_claim);
    assert!(c.a_key_record.ready_to_claim);
    // The proposer later claims the counterparty's deposit.
    let mine = c.claim_my_new_assets(&cap).unwrap();
    assert_eq!(mine.len(), 1);
    assert_eq!(mine[0], AssetBundle { asset_type: 9, contents: BundleContents::Fungible(5) });
    assert!(c.escrow_receipt.ready_to_claim);
}

#[test]
fn scenario_mismatch_then_cancel() {
    let (mut c, cap) = scenario_trade();
    // Delivering 4 where 5 is expected aborts with a manifest mismatch and
    // changes nothing.
    let r = c.b_deposit_tokens(vec![fung(9, 4)]);
    assert_eq!(r, Err(EscrowError::ManifestMismatch));
    assert!(!c.tokens_validated);
    assert_eq!(c.b_nft_vaults.slots.len(), 0);
    // The proposer can still cancel and recover the full deposit.
    let back = c.cancel(&cap).unwrap();
    assert_eq!(back.len(), 2);
    assert_eq!(
        back[0],
        AssetBundle { asset_type: 2, contents: BundleContents::Instances(vec![100]) },
    );
    assert_eq!(back[1], AssetBundle { asset_type: 7, contents: BundleContents::Fungible(10) });
}

#[test]
fn instance_gate_accepts_any_order() {
    let (mut c, _cap) = Barter::lets_barter_partner_permitted_clock(
        "instances".to_string(),
        Vec::new(),
        Vec::new(),
        vec![5, 6],
        AmountMap::new(),
        1,
        2,
    );
    let r = c.b_deposit_nfts(vec![inst(4, &[6]), inst(4, &[5])]);
    assert_eq!(r, Ok(()));
    assert!(c.nfts_validated);
    assert_eq!(
        c.b_nft_vaults.slots[0],
        AssetBundle { asset_type: 4, contents: BundleContents::Instances(vec![6, 5]) },
    );
}

#[test]
fn instance_gate_rejects_missing_added_substituted() {
    let mk = || {
        Barter::lets_barter_partner_permitted_clock(
            "instances".to_string(),
            Vec::new(),
            Vec::new(),
            vec![5, 6],
            AmountMap::new(),
            1,
            2,
        )
    };
    let (mut c, _) = mk();
    assert_eq!(c.b_deposit_nfts(vec![inst(4, &[5])]), Err(EscrowError::ManifestMismatch));
    assert!(!c.nfts_validated);
    assert_eq!(c.b_nft_vaults.slots.len(), 0);
    let (mut c, _) = mk();
    assert_eq!(c.b_deposit_nfts(vec![inst(4, &[5, 6, 7])]), Err(EscrowError::ManifestMismatch));
    let (mut c, _) = mk();
    assert_eq!(c.b_deposit_nfts(vec![inst(4, &[5, 7])]), Err(EscrowError::ManifestMismatch));
}

#[test]
fn amount_gate_sums_bundles_of_one_type() {
    let (mut c, _cap) = scenario_trade();
    // Two bundles of type 9 sum to the expected 5: accepted, and custody
    // holds the summed quantity in one slot.
    let r = c.b_deposit_tokens(vec![fung(9, 2), fung(9, 3)]);
    assert_eq!(r, Ok(()));
    assert_eq!(
        c.b_nft_vaults.slots[0],
        AssetBundle { asset_type: 9, contents: BundleContents::Fungible(5) },
    );
}

#[test]
fn amount_gate_rejects_extra_type_and_overflow() {
    let (mut c, _cap) = scenario_trade();
    assert_eq!(
        c.b_deposit_tokens(vec![fung(9, 5), fung(3, 1)]),
        Err(EscrowError::ManifestMismatch),
    );
    let (mut c, _cap) = scenario_trade();
    // A sum beyond the amount word cannot equal any expectation.
    assert_eq!(
        c.b_deposit_tokens(vec![fung(9, u128::MAX), fung(9, 2)]),
        Err(EscrowError::ManifestMismatch),
    );
    assert_eq!(c.b_nft_vaults.slots.len(), 0);
}

#[test]
fn premature_settlement_refused() {
    let (mut c, _cap) = scenario_trade();
    assert_eq!(c.b_claims_a_assets(), Err(EscrowError::PrematureSettlement));
    assert!(!c.escrow_receipt.ready_to_claim);
    assert_eq!(c.a_nft_vaults.slots.len(), 2);
}

#[test]
fn premature_claim_refused() {
    let (mut c, cap) = scenario_trade();
    assert_eq!(c.claim_my_new_assets(&cap), Err(EscrowError::PrematureClaim));
}

#[test]
fn capability_gates_cancel_and_claim() {
    let (mut c, _cap) = scenario_trade();
    let forged = ProposerCap { id: 999 };
    assert_eq!(c.cancel(&forged), Err(EscrowError::Unauthorized));
    assert_eq!(c.claim_my_new_assets(&forged), Err(EscrowError::Unauthorized));
    assert_eq!(c.a_nft_vaults.slots.len(), 2);
}

#[test]
fn deposit_blocks_cancel_for_good() {
    let (mut c, cap) = scenario_trade();
    assert_eq!(c.b_deposit_tokens(vec![fung(9, 5)]), Ok(()));
    // From the first successful deposit on, cancellation is refused for the
    // rest of the component's lifetime.
    assert_eq!(c.cancel(&cap), Err(EscrowError::StaleCancellation));
    let _ = c.b_claims_a_assets().unwrap();
    assert_eq!(c.cancel(&cap), Err(EscrowError::StaleCancellation));
    let _ = c.claim_my_new_assets(&cap).unwrap();
    assert_eq!(c.cancel(&cap), Err(EscrowError::StaleCancellation));
}

#[test]
fn ready_flag_set_once_and_kept() {
    let (mut c, cap) = scenario_trade();
    assert!(!c.escrow_receipt.ready_to_claim);
    assert!(!c.a_key_record.ready_to_claim);
    assert_eq!(c.b_deposit_tokens(vec![fung(9, 5)]), Ok(()));
    assert!(!c.escrow_receipt.ready_to_claim);
    let _ = c.b_claims_a_assets().unwrap();
    assert!(c.escrow_receipt.ready_to_claim);
    assert!(c.a_key_record.ready_to_claim);
    let _ = c.claim_my_new_assets(&cap).unwrap();
    assert!(c.escrow_receipt.ready_to_claim);
    assert!(c.a_key_record.ready_to_claim);
}

#[test]
fn double_drains_yield_nothing_further() {
    let (mut c, cap) = scenario_trade();
    assert_eq!(c.b_deposit_tokens(vec![fung(9, 5)]), Ok(()));
    let first = c.b_claims_a_assets().unwrap();
    assert_eq!(first.len(), 2);
    // The validation flags still hold, so a second settlement goes through,
    // but the slots are already empty.
    let second = c.b_claims_a_assets().unwrap();
    assert_eq!(second.len(), 2);
    assert_eq!(
        second[0],
        AssetBundle { asset_type: 2, contents: BundleContents::Instances(Vec::new()) },
    );
    assert_eq!(second[1], AssetBundle { asset_type: 7, contents: BundleContents::Fungible(0) });
    let mine = c.claim_my_new_assets(&cap).unwrap();
    assert_eq!(mine[0], AssetBundle { asset_type: 9, contents: BundleContents::Fungible(5) });
    let again = c.claim_my_new_assets(&cap).unwrap();
    assert_eq!(again.len(), 1);
    assert_eq!(again[0], AssetBundle { asset_type: 9, contents: BundleContents::Fungible(0) });
}

#[test]
fn trade_with_no_expectations_settles_at_once() {
    let (mut c, _cap) = Barter::lets_barter_partner_permitted_clock(
        "degenerate".to_string(),
        vec![inst(2, &[100])],
        Vec::new(),
        Vec::new(),
        AmountMap::new(),
        1,
        2,
    );
    let out = c.b_claims_a_assets().unwrap();
    assert_eq!(out.len(), 1);
    assert_eq!(
        out[0],
        AssetBundle { asset_type: 2, contents: BundleContents::Instances(vec![100]) },
    );
    assert!(c.escrow_receipt.ready_to_claim);
}

#[test]
fn empty_collections_are_legal_input() {
    let (mut c, cap) = Barter::lets_barter_partner_permitted_clock(
        "empty".to_string(),
        Vec::new(),
        Vec::new(),
        Vec::new(),
        AmountMap::new(),
        1,
        2,
    );
    assert_eq!(c.escrow_receipt.a_instances.len(), 0);
    assert_eq!(c.a_nft_vaults.slots.len(), 0);
    let back = c.cancel(&cap).unwrap();
    assert_eq!(back.len(), 0);
}

#[test]
fn both_asset_classes_validate_independently() {
    let (mut c, _cap) = Barter::lets_barter_partner_permitted_clock(
        "both".to_string(),
        vec![inst(2, &[100])],
        Vec::new(),
        vec![500],
        amap(&[(9, 5)]),
        1,
        2,
    );
    // With both classes expected, settling after only one validation aborts.
    assert_eq!(c.b_deposit_nfts(vec![inst(4, &[500])]), Ok(()));
    assert_eq!(c.b_claims_a_assets(), Err(EscrowError::PrematureSettlement));
    assert_eq!(c.b_deposit_tokens(vec![fung(9, 5)]), Ok(()));
    let out = c.b_claims_a_assets().unwrap();
    assert_eq!(out.len(), 1);
    // The counterparty custody holds both classes in one map.
    assert_eq!(c.b_nft_vaults.slots.len(), 2);
    assert_eq!(
        c.b_nft_vaults.slots[0],
        AssetBundle { asset_type: 4, contents: BundleContents::Instances(vec![500]) },
    );
    assert_eq!(
        c.b_nft_vaults.slots[1],
        AssetBundle { asset_type: 9, contents: BundleContents::Fungible(5) },
    );
}
