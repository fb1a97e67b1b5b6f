//! Custody of deposited assets: one map from asset-type identifier to a slot
//! holding all deposited units of that type. One map serves both asset
//! classes — a slot holds either a fungible quantity or instance identifiers.
//! Bundles of one type accumulate into one slot; draining empties every slot
//! but keeps the slots themselves, so occupancy is never forgotten.

use vstd::prelude::*;

use crate::bundles::{AssetBundle, BundleContents, BundleModel, ContentsModel};

verus! {

/// The index of the slot holding asset type `t`, or a negative value when no
/// slot does.
pub open spec fn find_type(s: Seq<BundleModel>, t: u64) -> int
    decreases s.len(),
{
    if s.len() == 0 {
        -1
    } else if s[0].asset_type == t {
        0
    } else {
        let r = find_type(s.drop_first(), t);
        if r < 0 {
            -1
        } else {
            r + 1
        }
    }
}

/// Whether some slot holds asset type `t`.
pub open spec fn has_type(s: Seq<BundleModel>, t: u64) -> bool {
    find_type(s, t) >= 0
}

/// `find_type` names the first slot of its type, and a negative answer means
/// no slot has it.
pub proof fn lemma_find_type(s: Seq<BundleModel>, t: u64)
    ensures
        find_type(s, t) < 0 ==> forall|j: int|
            0 <= j < s.len() ==> (#[trigger] s[j]).asset_type != t,
        find_type(s, t) >= 0 ==> 0 <= find_type(s, t) < s.len()
            && s[find_type(s, t)].asset_type == t && forall|j: int|
            0 <= j < find_type(s, t) ==> (#[trigger] s[j]).asset_type != t,
    decreases s.len(),
{
    if s.len() == 0 {
    } else if s[0].asset_type == t {
    } else {
        lemma_find_type(s.drop_first(), t);
        let r = find_type(s.drop_first(), t);
        if r < 0 {
            assert forall|j: int| 0 <= j < s.len() implies (#[trigger] s[j]).asset_type
                != t by {
                if j > 0 {
                    assert(s.drop_first()[j - 1] == s[j]);
                }
            }
        } else {
            assert(s.drop_first()[r] == s[r + 1]);
            assert forall|j: int| 0 <= j < r + 1 implies (#[trigger] s[j]).asset_type != t by {
                if j > 0 {
                    assert(s.drop_first()[j - 1] == s[j]);
                }
            }
        }
    }
}

/// A slot holding instance identifiers.
pub open spec fn inst_slot(t: u64, ids: Seq<u64>) -> BundleModel {
    BundleModel { asset_type: t, contents: ContentsModel::Instances(ids) }
}

/// A slot holding a fungible quantity.
pub open spec fn fung_slot(t: u64, a: int) -> BundleModel {
    BundleModel { asset_type: t, contents: ContentsModel::Fungible(a) }
}

/// Whether a slot holds instances.
pub open spec fn slot_is_instances(m: BundleModel) -> bool {
    match m.contents {
        ContentsModel::Instances(_) => true,
        ContentsModel::Fungible(_) => false,
    }
}

/// The identifiers a slot holds (empty for a fungible slot).
pub open spec fn slot_ids(m: BundleModel) -> Seq<u64> {
    match m.contents {
        ContentsModel::Instances(v) => v,
        ContentsModel::Fungible(_) => Seq::empty(),
    }
}

/// Whether a slot holds a fungible quantity.
pub open spec fn slot_is_fungible(m: BundleModel) -> bool {
    match m.contents {
        ContentsModel::Fungible(_) => true,
        ContentsModel::Instances(_) => false,
    }
}

/// The quantity a slot holds (zero for an instance slot).
pub open spec fn slot_amount(m: BundleModel) -> int {
    match m.contents {
        ContentsModel::Fungible(a) => a,
        ContentsModel::Instances(_) => 0,
    }
}

/// Custody after instance units of type `t` land: appended to the slot of
/// that type, or a fresh slot when none holds it.
pub open spec fn put_inst(s: Seq<BundleModel>, t: u64, ids: Seq<u64>) -> Seq<BundleModel> {
    let j = find_type(s, t);
    if j < 0 {
        s.push(inst_slot(t, ids))
    } else {
        s.update(j, inst_slot(t, slot_ids(s[j]) + ids))
    }
}

/// Custody after a fungible quantity of type `t` lands: added to the slot of
/// that type, or a fresh slot when none holds it.
pub open spec fn put_fung(s: Seq<BundleModel>, t: u64, a: int) -> Seq<BundleModel> {
    let j = find_type(s, t);
    if j < 0 {
        s.push(fung_slot(t, a))
    } else {
        s.update(j, fung_slot(t, slot_amount(s[j]) + a))
    }
}

/// Custody after a whole delivery of instance bundles lands, in order.
pub open spec fn put_instance_bundles(
    s: Seq<BundleModel>,
    bs: Seq<crate::bundles::InstanceBundle>,
) -> Seq<BundleModel>
    decreases bs.len(),
{
    if bs.len() == 0 {
        s
    } else {
        put_inst(
            put_instance_bundles(s, bs.drop_last()),
            bs.last().asset_type,
            bs.last().instance_ids@,
        )
    }
}

/// Custody after the entries of an aggregated amount map land, in order.
pub open spec fn put_amount_entries(s: Seq<BundleModel>, es: Seq<(u64, u128)>) -> Seq<
    BundleModel,
>
    decreases es.len(),
{
    if es.len() == 0 {
        s
    } else {
        put_fung(put_amount_entries(s, es.drop_last()), es.last().0, es.last().1 as int)
    }
}

/// Slots hold pairwise-distinct asset types.
pub open spec fn distinct_types(s: Seq<BundleModel>) -> bool {
    forall|i: int, j: int|
        0 <= i < j < s.len() ==> (#[trigger] s[i]).asset_type != (#[trigger] s[j]).asset_type
}

/// A slot with its units taken out: same type, same class, nothing left.
pub open spec fn emptied_slot(m: BundleModel) -> BundleModel {
    BundleModel {
        asset_type: m.asset_type,
        contents: match m.contents {
            ContentsModel::Fungible(_) => ContentsModel::Fungible(0),
            ContentsModel::Instances(_) => ContentsModel::Instances(Seq::empty()),
        },
    }
}

/// Custody with every slot emptied.
pub open spec fn emptied(s: Seq<BundleModel>) -> Seq<BundleModel> {
    s.map_values(|m: BundleModel| emptied_slot(m))
}

/// Every slot is empty.
pub open spec fn all_empty(s: Seq<BundleModel>) -> bool {
    forall|j: int| 0 <= j < s.len() ==> (#[trigger] s[j]).contents.is_empty()
}

/// A unit of type `t` carrying instances may land: the slot of that type, if
/// any, holds instances.
pub open spec fn can_hold_instances(s: Seq<BundleModel>, t: u64) -> bool {
    has_type(s, t) ==> slot_is_instances(s[find_type(s, t)])
}

/// A fungible quantity `a` of type `t` may land: the slot of that type, if
/// any, holds a quantity, and the sum still fits.
pub open spec fn can_hold_amount(s: Seq<BundleModel>, t: u64, a: int) -> bool {
    has_type(s, t) ==> slot_is_fungible(s[find_type(s, t)]) && slot_amount(s[find_type(s, t)])
        + a <= u128::MAX
}

/// One party's custody: a map from asset-type identifier to the slot holding
/// all deposited units of that type.
pub struct VaultMap {
    pub slots: Vec<AssetBundle>,
}

impl View for VaultMap {
    type V = Seq<BundleModel>;

    open spec fn view(&self) -> Seq<BundleModel> {
        self.slots@.map_values(|b: AssetBundle| b@)
    }
}

impl VaultMap {
    /// Slots hold pairwise-distinct asset types.
    pub open spec fn wf(self) -> bool {
        distinct_types(self@)
    }

    /// Empty custody.
    pub fn new() -> (r: VaultMap)
        ensures
            r.wf(),
            r@.len() == 0,
    {
        let r = VaultMap { slots: Vec::new() };
        proof {
            assert(r@.len() == 0);
        }
        r
    }

    /// Whether any slot exists: deposits leave slots behind even once
    /// drained, so this records whether a deposit ever landed.
    pub fn occupied(&self) -> (r: bool)
        ensures
            r == (self@.len() > 0),
    {
        self.slots.len() > 0
    }

    /// Lands instance units of one type.
    pub fn put_instances(&mut self, t: u64, ids: Vec<u64>)
        requires
            old(self).wf(),
            can_hold_instances(old(self)@, t),
        ensures
            final(self).wf(),
            final(self)@ == put_inst(old(self)@, t, ids@),
            final(self)@.len() >= old(self)@.len(),
            final(self)@.len() >= 1,
            forall|j: int| 0 <= j < old(self)@.len() ==> (#[trigger] final(self)@[j]).asset_type
                == old(self)@[j].asset_type,
            forall|j: int| 0 <= j < final(self)@.len() ==> ((#[trigger] final(self)@[j])
                == old(self)@[j] || (final(self)@[j].asset_type == t && slot_is_instances(
                final(self)@[j],
            ))),
    {
        let ghost s0 = self@;
        let n = self.slots.len();
        let mut i: usize = 0;
        while i < n
            invariant
                *self == *old(self),
                s0 == self@,
                n == self.slots@.len(),
                0 <= i <= n,
                forall|j: int| 0 <= j < i ==> (#[trigger] s0[j]).asset_type != t,
                distinct_types(s0),
                can_hold_instances(s0, t),
            decreases n - i,
        {
            proof {
                assert(s0[i as int] == self.slots@[i as int]@);
            }
            if self.slots[i].asset_type == t {
                proof {
                    lemma_find_type(s0, t);
                    assert(find_type(s0, t) == i);
                }
                let b = self.slots.remove(i);
                match b.contents {
                    BundleContents::Instances(mut v) => {
                        let mut more = ids;
                        v.append(&mut more);
                        self.slots.insert(
                            i,
                            AssetBundle { asset_type: t, contents: BundleContents::Instances(v) },
                        );
                        proof {
                            assert(self@ =~= s0.update(
                                i as int,
                                inst_slot(t, slot_ids(s0[i as int]) + ids@),
                            ));
                        }
                        return ;
                    },
                    BundleContents::Fungible(_) => {
                        proof {
                            assert(b@ == s0[i as int]);
                            assert(false);
                        }
                        return ;
                    },
                }
            }
            i += 1;
        }
        proof {
            lemma_find_type(s0, t);
            if find_type(s0, t) >= 0 {
                assert(s0[find_type(s0, t)].asset_type == t);
                assert(false);
            }
        }
        self.slots.push(AssetBundle { asset_type: t, contents: BundleContents::Instances(ids) });
        proof {
            assert(self@ =~= s0.push(inst_slot(t, ids@)));
        }
    }

    /// Lands a fungible quantity of one type.
    pub fn put_amount(&mut self, t: u64, amount: u128)
        requires
            old(self).wf(),
            can_hold_amount(old(self)@, t, amount as int),
        ensures
            final(self).wf(),
            final(self)@ == put_fung(old(self)@, t, amount as int),
            final(self)@.len() >= old(self)@.len(),
            final(self)@.len() >= 1,
            forall|j: int| 0 <= j < old(self)@.len() ==> (#[trigger] final(self)@[j]).asset_type
                == old(self)@[j].asset_type,
            forall|j: int| 0 <= j < final(self)@.len() ==> ((#[trigger] final(self)@[j])
                == old(self)@[j] || (final(self)@[j].asset_type == t && slot_is_fungible(
                final(self)@[j],
            ))),
    {
        let ghost s0 = self@;
        let n = self.slots.len();
        let mut i: usize = 0;
        while i < n
            invariant
                *self == *old(self),
                s0 == self@,
                n == self.slots@.len(),
                0 <= i <= n,
                forall|j: int| 0 <= j < i ==> (#[trigger] s0[j]).asset_type != t,
                distinct_types(s0),
                can_hold_amount(s0, t, amount as int),
            decreases n - i,
        {
            proof {
                assert(s0[i as int] == self.slots@[i as int]@);
            }
            if self.slots[i].asset_type == t {
                proof {
                    lemma_find_type(s0, t);
                    assert(find_type(s0, t) == i);
                }
                let b = self.slots.remove(i);
                match b.contents {
                    BundleContents::Fungible(a) => {
                        proof {
                            assert(b@ == s0[i as int]);
                            assert(a + amount <= u128::MAX);
                        }
                        self.slots.insert(
                            i,
                            AssetBundle {
                                asset_type: t,
                                contents: BundleContents::Fungible(a + amount),
                            },
                        );
                        proof {
                            assert(self@ =~= s0.update(
                                i as int,
                                fung_slot(t, slot_amount(s0[i as int]) + amount as int),
                            ));
                        }
                        return ;
                    },
                    BundleContents::Instances(_) => {
                        proof {
                            assert(b@ == s0[i as int]);
                            assert(false);
                        }
                        return ;
                    },
                }
            }
            i += 1;
        }
        proof {
            lemma_find_type(s0, t);
            if find_type(s0, t) >= 0 {
                assert(s0[find_type(s0, t)].asset_type == t);
                assert(false);
            }
        }
        self.slots.push(AssetBundle { asset_type: t, contents: BundleContents::Fungible(amount) });
        proof {
            assert(self@ =~= s0.push(fung_slot(t, amount as int)));
        }
    }

    /// Takes the full contents of every slot, returning one bundle per slot
    /// in slot order. The slots remain, empty.
    pub fn drain_all(&mut self) -> (out: Vec<AssetBundle>)
        requires
            old(self).wf(),
        ensures
            final(self).wf(),
            out@.map_values(|b: AssetBundle| b@) == old(self)@,
            final(self)@ == emptied(old(self)@),
            final(self)@.len() == old(self)@.len(),
            all_empty(final(self)@),
    {
        let ghost v0 = self.slots@;
        let mut out: Vec<AssetBundle> = Vec::new();
        let mut rest: Vec<AssetBundle> = Vec::new();
        let n = self.slots.len();
        let mut i: usize = 0;
        while i < n
            invariant
                n == v0.len(),
                0 <= i <= n,
                self.slots@ =~= v0.skip(i as int),
                out@.len() == i,
                rest@.len() == i,
                forall|j: int| 0 <= j < i ==> (#[trigger] out@[j])@ == v0[j]@,
                forall|j: int| 0 <= j < i ==> (#[trigger] rest@[j])@ == emptied_slot(v0[j]@),
            decreases n - i,
        {
            proof {
                assert(self.slots@[0] == v0[i as int]);
            }
            let b = self.slots.remove(0);
            let t = b.asset_type;
            match b.contents {
                BundleContents::Fungible(a) => {
                    out.push(AssetBundle { asset_type: t, contents: BundleContents::Fungible(a) });
                    rest.push(
                        AssetBundle { asset_type: t, contents: BundleContents::Fungible(0) },
                    );
                },
                BundleContents::Instances(v) => {
                    out.push(
                        AssetBundle { asset_type: t, contents: BundleContents::Instances(v) },
                    );
                    rest.push(
                        AssetBundle {
                            asset_type: t,
                            contents: BundleContents::Instances(Vec::new()),
                        },
                    );
                },
            }
            proof {
                assert(v0.skip(i as int).drop_first() =~= v0.skip(i + 1));
            }
            i += 1;
        }
        self.slots = rest;
        proof {
            assert(out@.map_values(|b: AssetBundle| b@) =~= old(self)@);
            assert(self@ =~= emptied(old(self)@));
            assert(distinct_types(self@)) by {
                assert(forall|j: int| 0 <= j < self@.len() ==> (#[trigger] self@[j]).asset_type
                    == old(self)@[j].asset_type);
            }
        }
        out
    }
}

} // verus!
