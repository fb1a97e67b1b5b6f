//! The escrow trade component. A proposer instantiates it with a bundle of
//! assets and a manifest of what it expects in return; a counterparty must
//! deposit exactly the expected bundle before either side can withdraw the
//! other's assets. Every operation is atomic: a refused call leaves the
//! component exactly as it was.

use vstd::prelude::*;

use crate::amounts::AmountMap;
use crate::bundles::{
    aggregate_amounts, amounts_fit, amounts_match, collect_instance_ids, copy_ids,
    delivered_amounts, delivered_ids, lemma_delivered_amounts_keys, AssetBundle, FungibleBundle,
    InstanceBundle,
};
use crate::errors::EscrowError;
use crate::idsort::{instance_sets_match, lemma_multiset_eq_iff_set_eq};
use crate::receipt::{same_record, InternalAuthority, ProposerCap, Receipt};
use crate::vaults::{
    all_empty, can_hold_amount, can_hold_instances, distinct_types, emptied, find_type,
    lemma_find_type, put_amount_entries, put_instance_bundles, slot_is_instances, VaultMap,
};

verus! {

/// One escrow trade: the proposer's custody, the counterparty's custody, the
/// agreed terms, and the validation state.
pub struct Barter {
    /// Custody of the proposer's deposited assets, keyed by asset type.
    pub a_nft_vaults: VaultMap,
    /// Custody of the counterparty's deposits, keyed by asset type; one map
    /// holds both asset classes.
    pub b_nft_vaults: VaultMap,
    /// Identifier of the proposer's capability token: the sole admission key
    /// for cancellation and for the proposer's final claim.
    pub a_vault_key: u64,
    /// The single-unit authority held inside the component; it alone admits
    /// mutation of the minted records' `ready_to_claim` flag.
    pub badge_sweeper: InternalAuthority,
    /// The internally held trade record.
    pub escrow_receipt: Receipt,
    /// The record backing the proposer's capability token, structurally
    /// identical to the receipt and updated together with it.
    pub a_key_record: Receipt,
    /// Instance identifiers the counterparty must deliver.
    pub expected_nfts: Vec<u64>,
    /// Asset-type → quantity the counterparty must deliver.
    pub expected_tokens: AmountMap,
    /// True exactly once the counterparty's instance delivery matched.
    pub nfts_validated: bool,
    /// True exactly once the counterparty's fungible delivery matched.
    pub tokens_validated: bool,
}

impl Barter {
    /// The component's invariant.
    pub open spec fn wf(self) -> bool {
        &&& self.a_nft_vaults.wf()
        &&& self.b_nft_vaults.wf()
        &&& self.expected_tokens.wf()
        &&& self.expected_nfts@.no_duplicates()
        &&& self.escrow_receipt.update_authority == self.badge_sweeper.id
        &&& self.a_key_record.update_authority == self.badge_sweeper.id
        &&& self.a_key_record.ready_to_claim == self.escrow_receipt.ready_to_claim
        &&& (self.escrow_receipt.ready_to_claim ==> all_empty(self.a_nft_vaults@))
        &&& (self.escrow_receipt.ready_to_claim ==> self.validations_complete())
    }

    /// Every validation the manifest demands has happened: a manifest with no
    /// expected instances (or amounts) auto-satisfies that half.
    pub open spec fn validations_complete(self) -> bool {
        &&& (self.expected_nfts@.len() > 0 ==> self.nfts_validated)
        &&& (self.expected_tokens.entries@.len() > 0 ==> self.tokens_validated)
    }

    /// Whether any counterparty deposit has ever landed: deposits leave slots
    /// behind even once drained.
    pub open spec fn counterparty_occupied(self) -> bool {
        self.b_nft_vaults@.len() > 0
    }

    /// Cancellation is open only while no counterparty deposit has landed.
    pub open spec fn cancel_allowed(self) -> bool {
        !self.counterparty_occupied()
    }

    /// The proposer's custody has been drained.
    pub open spec fn proposer_drained(self) -> bool {
        all_empty(self.a_nft_vaults@)
    }

    /// Everything but the counterparty's custody and the validation flags is
    /// as it was.
    pub open spec fn frame_except_counterparty(self, o: Barter) -> bool {
        &&& self.a_nft_vaults == o.a_nft_vaults
        &&& self.a_vault_key == o.a_vault_key
        &&& self.badge_sweeper == o.badge_sweeper
        &&& self.escrow_receipt == o.escrow_receipt
        &&& self.a_key_record == o.a_key_record
        &&& self.expected_nfts == o.expected_nfts
        &&& self.expected_tokens == o.expected_tokens
    }

    /// Everything but the proposer's custody and the records' ready flag is
    /// as it was.
    pub open spec fn frame_except_settlement(self, o: Barter) -> bool {
        &&& self.b_nft_vaults == o.b_nft_vaults
        &&& self.a_vault_key == o.a_vault_key
        &&& self.badge_sweeper == o.badge_sweeper
        &&& same_record(self.escrow_receipt, o.escrow_receipt)
        &&& same_record(self.a_key_record, o.a_key_record)
        &&& self.expected_nfts == o.expected_nfts
        &&& self.expected_tokens == o.expected_tokens
        &&& self.nfts_validated == o.nfts_validated
        &&& self.tokens_validated == o.tokens_validated
    }

    /// Instantiates a trade: computes the proposer's deposit manifest from
    /// the supplied bundles, mints the internal authority, the receipt and
    /// the proposer's capability token (both records carry both manifests,
    /// not yet ready to claim), and takes every proposer bundle into custody,
    /// keyed by asset type — bundles of one type accumulate into one slot.
    /// The two nonces stand for the fresh identifiers minting draws; the
    /// ledger guarantees an asset type never carries both classes and that
    /// per-type totals fit, which the preconditions record.
    pub fn lets_barter_partner_permitted_clock(
        custom_trade_name: String,
        a_nft_buckets: Vec<InstanceBundle>,
        a_token_buckets: Vec<FungibleBundle>,
        b_nft_deposits: Vec<u64>,
        b_token_deposits: AmountMap,
        authority_nonce: u64,
        capability_nonce: u64,
    ) -> (r: (Barter, ProposerCap))
        requires
            b_token_deposits.wf(),
            b_nft_deposits@.no_duplicates(),
            amounts_fit(a_token_buckets@),
            forall|i: int, j: int|
                0 <= i < a_nft_buckets@.len() && 0 <= j < a_token_buckets@.len()
                    ==> (#[trigger] a_nft_buckets@[i]).asset_type
                    != (#[trigger] a_token_buckets@[j]).asset_type,
        ensures
            r.0.wf(),
            r.1.id == r.0.a_vault_key,
            r.0.a_vault_key == capability_nonce,
            r.0.badge_sweeper.id == authority_nonce,
            r.0.escrow_receipt.label@ == custom_trade_name@,
            r.0.escrow_receipt.a_instances@ == delivered_ids(a_nft_buckets@),
            r.0.escrow_receipt.a_amounts.wf(),
            r.0.escrow_receipt.a_amounts.as_map() == delivered_amounts(a_token_buckets@),
            r.0.escrow_receipt.b_instances@ == b_nft_deposits@,
            r.0.escrow_receipt.b_amounts.entries@ == b_token_deposits.entries@,
            !r.0.escrow_receipt.ready_to_claim,
            same_record(r.0.a_key_record, r.0.escrow_receipt),
            !r.0.a_key_record.ready_to_claim,
            r.0.a_nft_vaults@ == put_amount_entries(
                put_instance_bundles(Seq::empty(), a_nft_buckets@),
                r.0.escrow_receipt.a_amounts.entries@,
            ),
            r.0.b_nft_vaults@.len() == 0,
            r.0.expected_nfts@ == b_nft_deposits@,
            r.0.expected_tokens.entries@ == b_token_deposits.entries@,
            !r.0.nfts_validated,
            !r.0.tokens_validated,
    {
        let a_nft_ids = collect_instance_ids(&a_nft_buckets);
        let a_nft_ids_mirror = copy_ids(&a_nft_ids);
        let a_amounts = match aggregate_amounts(&a_token_buckets) {
            Some(m) => m,
            None => {
                proof {
                    let k = choose|k: u64| delivered_amounts(a_token_buckets@).contains_key(k)
                        && #[trigger] delivered_amounts(a_token_buckets@)[k] > u128::MAX;
                    assert(delivered_amounts(a_token_buckets@)[k] <= u128::MAX);
                    assert(false);
                }
                vstd::pervasive::unreached()
            },
        };
        let a_amounts_mirror = a_amounts.duplicate();
        let b_amounts_copy = b_token_deposits.duplicate();
        let b_amounts_mirror = b_token_deposits.duplicate();
        let b_instances_copy = copy_ids(&b_nft_deposits);
        let b_instances_mirror = copy_ids(&b_nft_deposits);
        let label_mirror = custom_trade_name.clone();

        let mut vaults = VaultMap::new();
        let n1 = a_nft_buckets.len();
        let mut i: usize = 0;
        while i < n1
            invariant
                n1 == a_nft_buckets@.len(),
                0 <= i <= n1,
                vaults.wf(),
                vaults@ == put_instance_bundles(Seq::empty(), a_nft_buckets@.take(i as int)),
                forall|j: int| 0 <= j < vaults@.len() ==> slot_is_instances(#[trigger] vaults@[j]),
                forall|j: int| 0 <= j < vaults@.len() ==> (exists|p: int|
                    0 <= p < i && (#[trigger] vaults@[j]).asset_type
                        == a_nft_buckets@[p].asset_type),
            decreases n1 - i,
        {
            let t = a_nft_buckets[i].asset_type;
            let ids = copy_ids(&a_nft_buckets[i].instance_ids);
            proof {
                lemma_find_type(vaults@, t);
            }
            vaults.put_instances(t, ids);
            proof {
                assert(a_nft_buckets@.take(i + 1).drop_last() =~= a_nft_buckets@.take(i as int));
                assert(a_nft_buckets@.take(i + 1).last() == a_nft_buckets@[i as int]);
            }
            i += 1;
        }
        proof {
            assert(a_nft_buckets@.take(n1 as int) =~= a_nft_buckets@);
        }
        let ghost base = vaults@;
        let n2 = a_amounts.entries.len();
        let mut q: usize = 0;
        while q < n2
            invariant
                n2 == a_amounts.entries@.len(),
                0 <= q <= n2,
                vaults.wf(),
                a_amounts.wf(),
                a_amounts.as_map() == delivered_amounts(a_token_buckets@),
                base == put_instance_bundles(Seq::empty(), a_nft_buckets@),
                vaults@ == put_amount_entries(base, a_amounts.entries@.take(q as int)),
                vaults@.len() >= base.len(),
                forall|j: int| 0 <= j < base.len() ==> slot_is_instances(#[trigger] base[j]),
                forall|j: int| 0 <= j < base.len() ==> (exists|p: int|
                    0 <= p < a_nft_buckets@.len() && (#[trigger] base[j]).asset_type
                        == a_nft_buckets@[p].asset_type),
                forall|j: int| 0 <= j < vaults@.len() ==> ((j < base.len()
                    && #[trigger] vaults@[j] == base[j]) || (exists|p: int|
                    0 <= p < q && vaults@[j].asset_type == (#[trigger] a_amounts.entries@[p]).0)),
                forall|i2: int, j2: int|
                    0 <= i2 < a_nft_buckets@.len() && 0 <= j2 < a_token_buckets@.len()
                        ==> (#[trigger] a_nft_buckets@[i2]).asset_type
                        != (#[trigger] a_token_buckets@[j2]).asset_type,
            decreases n2 - q,
        {
            let (k, v) = a_amounts.entries[q];
            proof {
                assert((k, v) == a_amounts.entries@[q as int]);
                crate::amounts::lemma_assoc_at(a_amounts.entries@, q as int);
                lemma_delivered_amounts_keys(a_token_buckets@, k);
                let s = vaults@;
                if find_type(s, k) >= 0 {
                    lemma_find_type(s, k);
                    let j = find_type(s, k);
                    assert(s[j].asset_type == k);
                    if j < base.len() && s[j] == base[j] {
                        let p = choose|p: int|
                            0 <= p < a_nft_buckets@.len() && (#[trigger] base[j]).asset_type
                                == a_nft_buckets@[p].asset_type;
                        let w = choose|w: int|
                            0 <= w < a_token_buckets@.len()
                                && (#[trigger] a_token_buckets@[w]).asset_type == k;
                        assert(false);
                    } else {
                        let p = choose|p: int|
                            0 <= p < q && s[j].asset_type == (#[trigger] a_amounts.entries@[p]).0;
                        assert(false);
                    }
                }
            }
            vaults.put_amount(k, v);
            proof {
                assert(a_amounts.entries@.take(q + 1).drop_last() =~= a_amounts.entries@.take(
                    q as int,
                ));
                assert(a_amounts.entries@.take(q + 1).last() == a_amounts.entries@[q as int]);
            }
            q += 1;
        }
        proof {
            assert(a_amounts.entries@.take(n2 as int) =~= a_amounts.entries@);
        }
        let escrow_receipt = Receipt {
            label: custom_trade_name,
            update_authority: authority_nonce,
            a_instances: a_nft_ids,
            a_amounts,
            b_instances: b_instances_copy,
            b_amounts: b_amounts_copy,
            ready_to_claim: false,
        };
        let a_key_record = Receipt {
            label: label_mirror,
            update_authority: authority_nonce,
            a_instances: a_nft_ids_mirror,
            a_amounts: a_amounts_mirror,
            b_instances: b_instances_mirror,
            b_amounts: b_amounts_mirror,
            ready_to_claim: false,
        };
        let component = Barter {
            a_nft_vaults: vaults,
            b_nft_vaults: VaultMap::new(),
            a_vault_key: capability_nonce,
            badge_sweeper: InternalAuthority { id: authority_nonce },
            escrow_receipt,
            a_key_record,
            expected_nfts: b_nft_deposits,
            expected_tokens: b_token_deposits,
            nfts_validated: false,
            tokens_validated: false,
        };
        (component, ProposerCap { id: capability_nonce })
    }

    /// Accepts the counterparty's instance delivery when the delivered
    /// identifiers are exactly the expected ones; on a match, lands every
    /// bundle in the counterparty's custody and flags the validation. The
    /// preconditions record what the ledger guarantees of any delivery: an
    /// instance exists once, so no identifier repeats, and an asset type
    /// carries one class, so an instance bundle never meets a fungible slot.
    pub fn b_deposit_nfts(&mut self, b_nft_assets: Vec<InstanceBundle>) -> (r: Result<
        (),
        EscrowError,
    >)
        requires
            old(self).wf(),
            delivered_ids(b_nft_assets@).no_duplicates(),
            forall|i: int| 0 <= i < b_nft_assets@.len() ==> can_hold_instances(
                old(self).b_nft_vaults@,
                (#[trigger] b_nft_assets@[i]).asset_type,
            ),
        ensures
            final(self).wf(),
            (r is Ok) <==> delivered_ids(b_nft_assets@).to_multiset()
                == old(self).expected_nfts@.to_multiset(),
            (r is Ok) <==> delivered_ids(b_nft_assets@).to_set()
                == old(self).expected_nfts@.to_set(),
            r is Err ==> *final(self) == *old(self) && r == Err::<(), EscrowError>(
                EscrowError::ManifestMismatch,
            ),
            r is Ok ==> final(self).b_nft_vaults@ == put_instance_bundles(
                old(self).b_nft_vaults@,
                b_nft_assets@,
            ) && final(self).nfts_validated && final(self).tokens_validated == old(self).tokens_validated && final(self).frame_except_counterparty(*old(self)),
            r is Ok && b_nft_assets@.len() > 0 ==> final(self).counterparty_occupied(),
            old(self).counterparty_occupied() ==> final(self).counterparty_occupied(),
            final(self).escrow_receipt.ready_to_claim == old(self).escrow_receipt.ready_to_claim,
    {
        let derived = collect_instance_ids(&b_nft_assets);
        let matched = instance_sets_match(&derived, &self.expected_nfts);
        if !matched {
            proof {
                lemma_multiset_eq_iff_set_eq(delivered_ids(b_nft_assets@), self.expected_nfts@);
            }
            return Err(EscrowError::ManifestMismatch);
        }
        let ghost b0 = old(self).b_nft_vaults@;
        let n = b_nft_assets.len();
        let mut i: usize = 0;
        while i < n
            invariant
                n == b_nft_assets@.len(),
                0 <= i <= n,
                self.b_nft_vaults.wf(),
                self.b_nft_vaults@ == put_instance_bundles(b0, b_nft_assets@.take(i as int)),
                self.b_nft_vaults@.len() >= b0.len(),
                i > 0 ==> self.b_nft_vaults@.len() >= 1,
                distinct_types(b0),
                forall|j: int| 0 <= j < self.b_nft_vaults@.len() ==> ((j < b0.len()
                    && #[trigger] self.b_nft_vaults@[j] == b0[j]) || slot_is_instances(
                    self.b_nft_vaults@[j],
                )),
                forall|p: int| 0 <= p < n ==> can_hold_instances(
                    b0,
                    (#[trigger] b_nft_assets@[p]).asset_type,
                ),
                self.a_nft_vaults == old(self).a_nft_vaults,
                self.a_vault_key == old(self).a_vault_key,
                self.badge_sweeper == old(self).badge_sweeper,
                self.escrow_receipt == old(self).escrow_receipt,
                self.a_key_record == old(self).a_key_record,
                self.expected_nfts == old(self).expected_nfts,
                self.expected_tokens == old(self).expected_tokens,
                self.nfts_validated == old(self).nfts_validated,
                self.tokens_validated == old(self).tokens_validated,
            decreases n - i,
        {
            let t = b_nft_assets[i].asset_type;
            let ids = copy_ids(&b_nft_assets[i].instance_ids);
            proof {
                let s = self.b_nft_vaults@;
                if find_type(s, t) >= 0 {
                    lemma_find_type(s, t);
                    let j = find_type(s, t);
                    if j < b0.len() && s[j] == b0[j] {
                        lemma_find_type(b0, t);
                        if find_type(b0, t) < 0 {
                            assert(false);
                        } else {
                            let j0 = find_type(b0, t);
                            assert(b0[j0].asset_type == t);
                            if j0 < j {
                                assert(s[j0].asset_type != t);
                                assert((j0 < b0.len() && s[j0] == b0[j0]) || slot_is_instances(
                                    s[j0],
                                ));
                                assert(distinct_types(b0));
                                if j0 < b0.len() && s[j0] == b0[j0] {
                                    assert(false);
                                }
                            }
                        }
                    }
                }
            }
            self.b_nft_vaults.put_instances(t, ids);
            proof {
                assert(b_nft_assets@.take(i + 1).drop_last() =~= b_nft_assets@.take(i as int));
                assert(b_nft_assets@.take(i + 1).last() == b_nft_assets@[i as int]);
            }
            i += 1;
        }
        proof {
            assert(b_nft_assets@.take(n as int) =~= b_nft_assets@);
            lemma_multiset_eq_iff_set_eq(delivered_ids(b_nft_assets@), self.expected_nfts@);
        }
        self.nfts_validated = true;
        Ok(())
    }

    /// Accepts the counterparty's fungible delivery when it aggregates to
    /// exactly the expected asset-type → quantity map (bundles of one type
    /// sum together); on a match, lands the delivered amounts in the
    /// counterparty's custody and flags the validation. A delivery whose
    /// total for some type cannot be represented equals no expectation, so
    /// it is refused as a mismatch. The precondition records what the ledger
    /// guarantees: an asset type carries one class and a custody slot's
    /// total stays representable.
    pub fn b_deposit_tokens(&mut self, b_token_assets: Vec<FungibleBundle>) -> (r: Result<
        (),
        EscrowError,
    >)
        requires
            old(self).wf(),
            forall|i: int| 0 <= i < old(self).expected_tokens.entries@.len() ==> can_hold_amount(
                old(self).b_nft_vaults@,
                (#[trigger] old(self).expected_tokens.entries@[i]).0,
                old(self).expected_tokens.entries@[i].1 as int,
            ),
        ensures
            final(self).wf(),
            (r is Ok) <==> delivered_amounts(b_token_assets@) == old(self).expected_tokens.as_map(),
            r is Err ==> *final(self) == *old(self) && r == Err::<(), EscrowError>(
                EscrowError::ManifestMismatch,
            ),
            r is Ok ==> final(self).b_nft_vaults@ == put_amount_entries(
                old(self).b_nft_vaults@,
                old(self).expected_tokens.entries@,
            ) && final(self).tokens_validated && final(self).nfts_validated == old(self).nfts_validated && final(self).frame_except_counterparty(*old(self)),
            r is Ok && old(self).expected_tokens.entries@.len() > 0 ==> final(self).counterparty_occupied(),
            old(self).counterparty_occupied() ==> final(self).counterparty_occupied(),
            final(self).escrow_receipt.ready_to_claim == old(self).escrow_receipt.ready_to_claim,
    {
        let matched = amounts_match(&b_token_assets, &self.expected_tokens);
        if !matched {
            return Err(EscrowError::ManifestMismatch);
        }
        let ghost b0 = old(self).b_nft_vaults@;
        let ghost es = old(self).expected_tokens.entries@;
        let n = self.expected_tokens.entries.len();
        let mut i: usize = 0;
        while i < n
            invariant
                n == es.len(),
                0 <= i <= n,
                self.b_nft_vaults.wf(),
                self.b_nft_vaults@ == put_amount_entries(b0, es.take(i as int)),
                self.b_nft_vaults@.len() >= b0.len(),
                i > 0 ==> self.b_nft_vaults@.len() >= 1,
                distinct_types(b0),
                es == self.expected_tokens.entries@,
                crate::amounts::distinct_keys(es),
                forall|j: int| 0 <= j < self.b_nft_vaults@.len() ==> ((j < b0.len()
                    && #[trigger] self.b_nft_vaults@[j] == b0[j]) || (exists|p: int|
                    0 <= p < i && self.b_nft_vaults@[j].asset_type == (#[trigger] es[p]).0)),
                forall|p: int| 0 <= p < n ==> can_hold_amount(
                    b0,
                    (#[trigger] es[p]).0,
                    es[p].1 as int,
                ),
                self.a_nft_vaults == old(self).a_nft_vaults,
                self.a_vault_key == old(self).a_vault_key,
                self.badge_sweeper == old(self).badge_sweeper,
                self.escrow_receipt == old(self).escrow_receipt,
                self.a_key_record == old(self).a_key_record,
                self.expected_nfts == old(self).expected_nfts,
                self.expected_tokens == old(self).expected_tokens,
                self.nfts_validated == old(self).nfts_validated,
                self.tokens_validated == old(self).tokens_validated,
            decreases n - i,
        {
            let (k, v) = self.expected_tokens.entries[i];
            proof {
                assert((k, v) == es[i as int]);
                let s = self.b_nft_vaults@;
                if find_type(s, k) >= 0 {
                    lemma_find_type(s, k);
                    let j = find_type(s, k);
                    assert(s[j].asset_type == k);
                    if j < b0.len() && s[j] == b0[j] {
                        lemma_find_type(b0, k);
                        if find_type(b0, k) < 0 {
                            assert(false);
                        } else {
                            let j0 = find_type(b0, k);
                            if j0 < j {
                                if j0 < b0.len() && s[j0] == b0[j0] {
                                    assert(false);
                                } else {
                                    let p = choose|p: int|
                                        0 <= p < i && s[j0].asset_type == (#[trigger] es[p]).0;
                                    assert(false);
                                }
                            }
                            assert(can_hold_amount(s, k, v as int));
                        }
                    } else {
                        let p = choose|p: int| 0 <= p < i && s[j].asset_type == (#[trigger] es[p]).0;
                        assert(es[p].0 == k && es[i as int].0 == k);
                        assert(false);
                    }
                }
            }
            self.b_nft_vaults.put_amount(k, v);
            proof {
                assert(es.take(i + 1).drop_last() =~= es.take(i as int));
                assert(es.take(i + 1).last() == es[i as int]);
            }
            i += 1;
        }
        proof {
            assert(es.take(n as int) =~= es);
        }
        self.tokens_validated = true;
        Ok(())
    }

    /// Settlement: once every validation the manifest demands has happened,
    /// drains the proposer's custody and returns its full contents, flipping
    /// `ready_to_claim` on both minted records under the internal authority.
    /// Not capability-gated: any caller may settle once the preconditions
    /// hold.
    pub fn b_claims_a_assets(&mut self) -> (r: Result<Vec<AssetBundle>, EscrowError>)
        requires
            old(self).wf(),
        ensures
            final(self).wf(),
            (r is Ok) <==> old(self).validations_complete(),
            r is Err ==> *final(self) == *old(self) && r == Err::<Vec<AssetBundle>, EscrowError>(
                EscrowError::PrematureSettlement,
            ),
            r matches Ok(out) ==> out@.map_values(|b: AssetBundle| b@) == old(self).a_nft_vaults@
                && final(self).a_nft_vaults@ == emptied(old(self).a_nft_vaults@) && final(self).escrow_receipt.ready_to_claim && final(self).a_key_record.ready_to_claim && final(self).frame_except_settlement(*old(self)),
            old(self).escrow_receipt.ready_to_claim ==> final(self).escrow_receipt.ready_to_claim,
            old(self).counterparty_occupied() ==> final(self).counterparty_occupied(),
    {
        let nfts_due = self.expected_nfts.len() > 0;
        if nfts_due && !self.nfts_validated {
            return Err(EscrowError::PrematureSettlement);
        }
        let tokens_due = self.expected_tokens.entries.len() > 0;
        if tokens_due && !self.tokens_validated {
            return Err(EscrowError::PrematureSettlement);
        }
        let out = self.a_nft_vaults.drain_all();
        self.escrow_receipt.set_ready(&self.badge_sweeper);
        self.a_key_record.set_ready(&self.badge_sweeper);
        Ok(out)
    }

    /// Cancellation: before any counterparty deposit has landed, the
    /// proposer — and only a presenter of the proposer capability — may drain
    /// the proposer's custody back.
    pub fn cancel(&mut self, cap: &ProposerCap) -> (r: Result<Vec<AssetBundle>, EscrowError>)
        requires
            old(self).wf(),
        ensures
            final(self).wf(),
            (r is Ok) <==> (cap.id == old(self).a_vault_key && old(self).cancel_allowed()),
            cap.id != old(self).a_vault_key ==> *final(self) == *old(self) && r == Err::<
                Vec<AssetBundle>,
                EscrowError,
            >(EscrowError::Unauthorized),
            cap.id == old(self).a_vault_key && !old(self).cancel_allowed() ==> *final(self)
                == *old(self) && r == Err::<Vec<AssetBundle>, EscrowError>(
                EscrowError::StaleCancellation,
            ),
            r matches Ok(out) ==> out@.map_values(|b: AssetBundle| b@) == old(self).a_nft_vaults@
                && final(self).a_nft_vaults@ == emptied(old(self).a_nft_vaults@) && final(self).frame_except_settlement(*old(self)) && final(self).escrow_receipt.ready_to_claim
                == old(self).escrow_receipt.ready_to_claim,
            old(self).escrow_receipt.ready_to_claim ==> final(self).escrow_receipt.ready_to_claim,
            old(self).counterparty_occupied() ==> final(self).counterparty_occupied(),
    {
        if cap.id != self.a_vault_key {
            return Err(EscrowError::Unauthorized);
        }
        if self.b_nft_vaults.occupied() {
            return Err(EscrowError::StaleCancellation);
        }
        let out = self.a_nft_vaults.drain_all();
        Ok(out)
    }

    /// The proposer's final claim: once a counterparty deposit has landed,
    /// the proposer — and only a presenter of the proposer capability —
    /// drains the counterparty's custody.
    pub fn claim_my_new_assets(&mut self, cap: &ProposerCap) -> (r: Result<
        Vec<AssetBundle>,
        EscrowError,
    >)
        requires
            old(self).wf(),
        ensures
            final(self).wf(),
            (r is Ok) <==> (cap.id == old(self).a_vault_key && old(self).counterparty_occupied()),
            cap.id != old(self).a_vault_key ==> *final(self) == *old(self) && r == Err::<
                Vec<AssetBundle>,
                EscrowError,
            >(EscrowError::Unauthorized),
            cap.id == old(self).a_vault_key && !old(self).counterparty_occupied() ==> *final(self)
                == *old(self) && r == Err::<Vec<AssetBundle>, EscrowError>(
                EscrowError::PrematureClaim,
            ),
            r matches Ok(out) ==> out@.map_values(|b: AssetBundle| b@) == old(self).b_nft_vaults@
                && final(self).b_nft_vaults@ == emptied(old(self).b_nft_vaults@) && final(self).a_nft_vaults == old(self).a_nft_vaults && final(self).escrow_receipt == old(self).escrow_receipt && final(self).a_key_record == old(self).a_key_record && final(self).expected_nfts == old(self).expected_nfts && final(self).expected_tokens == old(self).expected_tokens && final(self).nfts_validated == old(self).nfts_validated && final(self).tokens_validated == old(self).tokens_validated && final(self).a_vault_key == old(self).a_vault_key && final(self).badge_sweeper == old(self).badge_sweeper,
            old(self).escrow_receipt.ready_to_claim ==> final(self).escrow_receipt.ready_to_claim,
            old(self).counterparty_occupied() ==> final(self).counterparty_occupied(),
    {
        if cap.id != self.a_vault_key {
            return Err(EscrowError::Unauthorized);
        }
        if !self.b_nft_vaults.occupied() {
            return Err(EscrowError::PrematureClaim);
        }
        let out = self.b_nft_vaults.drain_all();
        Ok(out)
    }
}

/// Once the receipt shows `ready_to_claim`, settlement has completed: the
/// proposer's custody stands drained and every demanded validation happened.
/// The flag never reverses: every operation's contract keeps it set.
pub proof fn lemma_ready_implies_settled(e: Barter)
    requires
        e.wf(),
        e.escrow_receipt.ready_to_claim,
    ensures
        e.proposer_drained(),
        e.validations_complete(),
{
}

/// Once any counterparty deposit has landed, cancellation is refused for the
/// rest of the component's lifetime, whatever capability is presented:
/// occupancy never decreases, and an occupied counterparty custody refuses
/// cancellation.
pub proof fn lemma_deposit_blocks_cancel(e: Barter)
    requires
        e.counterparty_occupied(),
    ensures
        !e.cancel_allowed(),
{
}

/// Draining twice yields nothing further: once the proposer's custody is
/// drained, the bundles any further drain returns are all empty.
pub proof fn lemma_no_double_drain(e: Barter, out: Seq<crate::bundles::BundleModel>)
    requires
        e.proposer_drained(),
        out == e.a_nft_vaults@,
    ensures
        all_empty(out),
{
}

} // verus!
