//! Asset bundles: the transferable units a trade moves. A bundle is either a
//! fungible quantity of one asset type or a set of uniquely identified
//! instances of one asset type.

use vstd::prelude::*;

use crate::amounts::{bump, lemma_assoc_bounds, map_eq, AmountMap};

verus! {

/// A fungible quantity of one asset type.
#[derive(Debug, PartialEq, Eq)]
pub struct FungibleBundle {
    pub asset_type: u64,
    pub amount: u128,
}

/// A set of unique instances of one non-fungible asset type.
#[derive(Debug, PartialEq, Eq)]
pub struct InstanceBundle {
    pub asset_type: u64,
    pub instance_ids: Vec<u64>,
}

/// What a mixed bundle carries.
#[derive(Debug, PartialEq, Eq)]
pub enum BundleContents {
    Fungible(u128),
    Instances(Vec<u64>),
}

/// A transferable unit of either kind, as custody slots hold and drains
/// return it.
#[derive(Debug, PartialEq, Eq)]
pub struct AssetBundle {
    pub asset_type: u64,
    pub contents: BundleContents,
}

/// The mathematical shape of a bundle's contents.
#[verifier::ext_equal]
pub ghost enum ContentsModel {
    Fungible(int),
    Instances(Seq<u64>),
}

impl ContentsModel {
    /// No units left.
    pub open spec fn is_empty(self) -> bool {
        match self {
            ContentsModel::Fungible(a) => a == 0,
            ContentsModel::Instances(s) => s.len() == 0,
        }
    }
}

/// The mathematical shape of a bundle or custody slot.
#[verifier::ext_equal]
pub ghost struct BundleModel {
    pub asset_type: u64,
    pub contents: ContentsModel,
}

impl View for BundleContents {
    type V = ContentsModel;

    open spec fn view(&self) -> ContentsModel {
        match self {
            BundleContents::Fungible(a) => ContentsModel::Fungible(*a as int),
            BundleContents::Instances(v) => ContentsModel::Instances(v@),
        }
    }
}

impl View for AssetBundle {
    type V = BundleModel;

    open spec fn view(&self) -> BundleModel {
        BundleModel { asset_type: self.asset_type, contents: self.contents@ }
    }
}

/// The instance identifiers a delivery carries, in delivery order.
pub open spec fn delivered_ids(bs: Seq<InstanceBundle>) -> Seq<u64>
    decreases bs.len(),
{
    if bs.len() == 0 {
        Seq::empty()
    } else {
        delivered_ids(bs.drop_last()) + bs.last().instance_ids@
    }
}

/// The asset-type → total-quantity map a fungible delivery stands for;
/// bundles of one type sum together.
pub open spec fn delivered_amounts(bs: Seq<FungibleBundle>) -> Map<u64, int>
    decreases bs.len(),
{
    if bs.len() == 0 {
        Map::empty()
    } else {
        bump(
            delivered_amounts(bs.drop_last()),
            bs.last().asset_type,
            bs.last().amount as int,
        )
    }
}

/// Every total of a fungible delivery fits in a machine word for amounts.
pub open spec fn amounts_fit(bs: Seq<FungibleBundle>) -> bool {
    forall|k: u64| delivered_amounts(bs).contains_key(k)
        ==> #[trigger] delivered_amounts(bs)[k] <= u128::MAX
}

/// Totals only grow as a delivery is extended: what a prefix already sums to
/// is a lower bound on the whole delivery's total for that asset type.
pub proof fn lemma_delivered_amounts_prefix(bs: Seq<FungibleBundle>, n: int, k: u64)
    requires
        0 <= n <= bs.len(),
        delivered_amounts(bs.take(n)).contains_key(k),
    ensures
        delivered_amounts(bs).contains_key(k),
        delivered_amounts(bs)[k] >= delivered_amounts(bs.take(n))[k],
    decreases bs.len() - n,
{
    if n == bs.len() {
        assert(bs.take(n) =~= bs);
    } else {
        assert(bs.take(n + 1).drop_last() =~= bs.take(n));
        assert(bs.take(n + 1).last() == bs[n]);
        lemma_delivered_amounts_prefix(bs, n + 1, k);
    }
}

/// An asset type totalled by a fungible delivery occurs in some bundle of it.
pub proof fn lemma_delivered_amounts_keys(bs: Seq<FungibleBundle>, k: u64)
    requires
        delivered_amounts(bs).contains_key(k),
    ensures
        exists|i: int| 0 <= i < bs.len() && (#[trigger] bs[i]).asset_type == k,
    decreases bs.len(),
{
    if bs.len() == 0 {
    } else {
        if bs.last().asset_type == k {
            assert(bs[bs.len() - 1].asset_type == k);
        } else {
            lemma_delivered_amounts_keys(bs.drop_last(), k);
            let i = choose|i: int| 0 <= i < bs.drop_last().len() && (#[trigger] bs.drop_last()[i]).asset_type == k;
            assert(bs[i].asset_type == k);
        }
    }
}

/// An element-for-element copy of an identifier list.
pub fn copy_ids(v: &Vec<u64>) -> (r: Vec<u64>)
    ensures
        r@ == v@,
{
    let mut out: Vec<u64> = Vec::new();
    let n = v.len();
    let mut i: usize = 0;
    while i < n
        invariant
            n == v@.len(),
            0 <= i <= n,
            out@ == v@.take(i as int),
        decreases n - i,
    {
        out.push(v[i]);
        proof {
            assert(v@.take(i + 1) =~= v@.take(i as int).push(v@[i as int]));
        }
        i += 1;
    }
    proof {
        assert(v@.take(n as int) =~= v@);
    }
    out
}

/// Flattens a delivery of instance bundles into the identifiers it carries,
/// in delivery order.
pub fn collect_instance_ids(bundles: &Vec<InstanceBundle>) -> (r: Vec<u64>)
    ensures
        r@ == delivered_ids(bundles@),
{
    let mut out: Vec<u64> = Vec::new();
    let n = bundles.len();
    let mut i: usize = 0;
    while i < n
        invariant
            n == bundles@.len(),
            0 <= i <= n,
            out@ == delivered_ids(bundles@.take(i as int)),
        decreases n - i,
    {
        out.extend_from_slice(bundles[i].instance_ids.as_slice());
        proof {
            assert(bundles@.take(i + 1).drop_last() =~= bundles@.take(i as int));
            assert(bundles@.take(i + 1).last() == bundles@[i as int]);
        }
        i += 1;
    }
    proof {
        assert(bundles@.take(n as int) =~= bundles@);
    }
    out
}

/// Aggregates a fungible delivery into an asset-type → quantity map, summing
/// bundles of one type. Reports nothing when some total does not fit.
pub fn aggregate_amounts(bundles: &Vec<FungibleBundle>) -> (r: Option<AmountMap>)
    ensures
        match r {
            Some(m) => m.wf() && m.as_map() == delivered_amounts(bundles@),
            None => exists|k: u64| delivered_amounts(bundles@).contains_key(k)
                && #[trigger] delivered_amounts(bundles@)[k] > u128::MAX,
        },
{
    let mut m = AmountMap::new();
    let n = bundles.len();
    let mut i: usize = 0;
    while i < n
        invariant
            n == bundles@.len(),
            0 <= i <= n,
            m.wf(),
            m.as_map() == delivered_amounts(bundles@.take(i as int)),
        decreases n - i,
    {
        let t = bundles[i].asset_type;
        let a = bundles[i].amount;
        let ok = m.add_amount(t, a);
        proof {
            assert(bundles@.take(i + 1).drop_last() =~= bundles@.take(i as int));
            assert(bundles@.take(i + 1).last() == bundles@[i as int]);
        }
        if !ok {
            proof {
                assert(delivered_amounts(bundles@.take(i + 1)).contains_key(t));
                assert(delivered_amounts(bundles@.take(i + 1))[t] > u128::MAX);
                lemma_delivered_amounts_prefix(bundles@, i + 1, t);
            }
            return None;
        }
        i += 1;
    }
    proof {
        assert(bundles@.take(n as int) =~= bundles@);
    }
    Some(m)
}

/// Whether a fungible delivery aggregates to exactly the expected
/// asset-type → quantity map: same asset types, same totals.
pub fn amounts_match(delivered: &Vec<FungibleBundle>, expected: &AmountMap) -> (r: bool)
    requires
        expected.wf(),
    ensures
        r <==> delivered_amounts(delivered@) == expected.as_map(),
{
    match aggregate_amounts(delivered) {
        Some(m) => map_eq(&m, expected),
        None => {
            proof {
                let k = choose|k: u64| delivered_amounts(delivered@).contains_key(k)
                    && #[trigger] delivered_amounts(delivered@)[k] > u128::MAX;
                if delivered_amounts(delivered@) == expected.as_map() {
                    lemma_assoc_bounds(expected.entries@, k);
                }
            }
            false
        },
    }
}

} // verus!
