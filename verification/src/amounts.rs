//! A finite map from asset-type identifier to fungible quantity, held as an
//! association list with pairwise-distinct keys. It records both the amounts
//! a trade expects and the amounts a manifest describes.

use vstd::prelude::*;

verus! {

/// Entries of an association list have pairwise-distinct keys.
pub open spec fn distinct_keys(s: Seq<(u64, u128)>) -> bool {
    forall|i: int, j: int|
        0 <= i < j < s.len() ==> (#[trigger] s[i]).0 != (#[trigger] s[j]).0
}

/// The mathematical map an association list stands for; a repeated key is
/// resolved in favour of the later entry.
pub open spec fn assoc_as_map(s: Seq<(u64, u128)>) -> Map<u64, int>
    decreases s.len(),
{
    if s.len() == 0 {
        Map::empty()
    } else {
        assoc_as_map(s.drop_last()).insert(s.last().0, s.last().1 as int)
    }
}

/// `m` with `amount` added to the quantity at `key` (zero when absent).
pub open spec fn bump(m: Map<u64, int>, key: u64, amount: int) -> Map<u64, int> {
    m.insert(key, (if m.contains_key(key) { m[key] } else { 0 }) + amount)
}

/// A key occurs in the map exactly when some entry carries it.
pub proof fn lemma_assoc_contains(s: Seq<(u64, u128)>, k: u64)
    ensures
        assoc_as_map(s).contains_key(k) <==> (exists|i: int|
            0 <= i < s.len() && (#[trigger] s[i]).0 == k),
    decreases s.len(),
{
    if s.len() == 0 {
    } else {
        lemma_assoc_contains(s.drop_last(), k);
        if s.last().0 == k {
            assert(s[s.len() - 1].0 == k);
        } else {
            if assoc_as_map(s).contains_key(k) {
                let i = choose|i: int| 0 <= i < s.drop_last().len() && (#[trigger] s.drop_last()[i]).0 == k;
                assert(s[i].0 == k);
            }
            if exists|i: int| 0 <= i < s.len() && (#[trigger] s[i]).0 == k {
                let i = choose|i: int| 0 <= i < s.len() && (#[trigger] s[i]).0 == k;
                assert(s.drop_last()[i].0 == k);
            }
        }
    }
}

/// With distinct keys, the map sends each entry's key to that entry's value.
pub proof fn lemma_assoc_at(s: Seq<(u64, u128)>, i: int)
    requires
        distinct_keys(s),
        0 <= i < s.len(),
    ensures
        assoc_as_map(s).contains_key(s[i].0),
        assoc_as_map(s)[s[i].0] == s[i].1 as int,
    decreases s.len(),
{
    if i == s.len() - 1 {
    } else {
        assert(s.drop_last()[i] == s[i]);
        lemma_assoc_at(s.drop_last(), i);
        assert(s[i].0 != s.last().0);
    }
}

/// Every quantity the map holds fits in a machine word for amounts.
pub proof fn lemma_assoc_bounds(s: Seq<(u64, u128)>, k: u64)
    requires
        assoc_as_map(s).contains_key(k),
    ensures
        0 <= assoc_as_map(s)[k] <= u128::MAX,
    decreases s.len(),
{
    if s.len() == 0 {
    } else {
        if s.last().0 != k {
            lemma_assoc_bounds(s.drop_last(), k);
        }
    }
}

/// A finite asset-type → quantity map.
pub struct AmountMap {
    pub entries: Vec<(u64, u128)>,
}

impl AmountMap {
    /// Keys are pairwise distinct.
    pub open spec fn wf(self) -> bool {
        distinct_keys(self.entries@)
    }

    /// The map this value stands for.
    pub open spec fn as_map(self) -> Map<u64, int> {
        assoc_as_map(self.entries@)
    }

    /// An empty map.
    pub fn new() -> (r: AmountMap)
        ensures
            r.wf(),
            r.as_map() == Map::<u64, int>::empty(),
            r.entries@.len() == 0,
    {
        AmountMap { entries: Vec::new() }
    }

    /// The quantity recorded for `key`, if any.
    pub fn get(&self, key: u64) -> (r: Option<u128>)
        requires
            self.wf(),
        ensures
            match r {
                Some(v) => self.as_map().contains_key(key) && self.as_map()[key] == v as int,
                None => !self.as_map().contains_key(key),
            },
    {
        let n = self.entries.len();
        let mut i: usize = 0;
        while i < n
            invariant
                n == self.entries@.len(),
                0 <= i <= n,
                self.wf(),
                forall|j: int| 0 <= j < i ==> (#[trigger] self.entries@[j]).0 != key,
            decreases n - i,
        {
            let (k, v) = self.entries[i];
            if k == key {
                proof {
                    lemma_assoc_at(self.entries@, i as int);
                }
                return Some(v);
            }
            i += 1;
        }
        proof {
            lemma_assoc_contains(self.entries@, key);
        }
        None
    }

    /// An entry-for-entry copy.
    pub fn duplicate(&self) -> (r: AmountMap)
        ensures
            r.entries@ == self.entries@,
    {
        let mut out: Vec<(u64, u128)> = Vec::new();
        let n = self.entries.len();
        let mut i: usize = 0;
        while i < n
            invariant
                n == self.entries@.len(),
                0 <= i <= n,
                out@ == self.entries@.take(i as int),
            decreases n - i,
        {
            out.push(self.entries[i]);
            proof {
                assert(self.entries@.take(i + 1) =~= self.entries@.take(i as int).push(
                    self.entries@[i as int],
                ));
            }
            i += 1;
        }
        proof {
            assert(self.entries@.take(n as int) =~= self.entries@);
        }
        AmountMap { entries: out }
    }

    /// Adds `amount` to the quantity at `key`, creating the entry when it is
    /// absent. Reports `false`, changing nothing, when the sum would not fit.
    pub fn add_amount(&mut self, key: u64, amount: u128) -> (ok: bool)
        requires
            old(self).wf(),
        ensures
            final(self).wf(),
            ok ==> final(self).as_map() == bump(old(self).as_map(), key, amount as int),
            !ok ==> *final(self) == *old(self) && bump(old(self).as_map(), key, amount as int)[key]
                > u128::MAX,
    {
        let n = self.entries.len();
        let mut i: usize = 0;
        while i < n
            invariant
                *self == *old(self),
                n == self.entries@.len(),
                0 <= i <= n,
                distinct_keys(old(self).entries@),
                forall|j: int| 0 <= j < i ==> (#[trigger] old(self).entries@[j]).0 != key,
            decreases n - i,
        {
            let ghost s0 = old(self).entries@;
            let (k, v) = self.entries[i];
            proof {
                assert((k, v) == s0[i as int]);
            }
            if k == key {
                proof {
                    lemma_assoc_at(s0, i as int);
                }
                if amount <= u128::MAX - v {
                    self.entries.remove(i);
                    self.entries.insert(i, (key, v + amount));
                    proof {
                        assert(self.entries@ =~= s0.update(i as int, (key, (v + amount) as u128)));
                        lemma_assoc_update(s0, i as int, (v + amount) as u128);
                        assert(self.as_map() == bump(assoc_as_map(s0), key, amount as int));
                    }
                    return true;
                } else {
                    return false;
                }
            }
            i += 1;
        }
        proof {
            lemma_assoc_contains(old(self).entries@, key);
        }
        self.entries.push((key, amount));
        proof {
            assert(self.entries@.drop_last() =~= old(self).entries@);
            assert(forall|j: int| 0 <= j < old(self).entries@.len() ==> self.entries@[j]
                == (#[trigger] old(self).entries@[j]));
            assert(distinct_keys(self.entries@));
        }
        true
    }
}

/// Updating the value at an entry updates the map at that entry's key.
pub proof fn lemma_assoc_update(s: Seq<(u64, u128)>, i: int, v: u128)
    requires
        distinct_keys(s),
        0 <= i < s.len(),
    ensures
        distinct_keys(s.update(i, (s[i].0, v))),
        assoc_as_map(s.update(i, (s[i].0, v))) == assoc_as_map(s).insert(s[i].0, v as int),
    decreases s.len(),
{
    let t = s.update(i, (s[i].0, v));
    assert(distinct_keys(t)) by {
        assert(forall|j: int| 0 <= j < s.len() ==> (#[trigger] t[j]).0 == s[j].0);
    }
    if i == s.len() - 1 {
        assert(t.drop_last() =~= s.drop_last());
        assert(t.last() == (s[i].0, v));
        assert(assoc_as_map(t) =~= assoc_as_map(s).insert(s[i].0, v as int));
    } else {
        assert(t.drop_last() =~= s.drop_last().update(i, (s[i].0, v)));
        assert(s.drop_last()[i] == s[i]);
        lemma_assoc_update(s.drop_last(), i, v);
        assert(t.last() == s.last());
        assert(s[i].0 != s.last().0);
        assert(assoc_as_map(t) =~= assoc_as_map(s).insert(s[i].0, v as int));
    }
}

/// Two well-formed maps are equal exactly when they agree as maps.
pub fn map_eq(a: &AmountMap, b: &AmountMap) -> (r: bool)
    requires
        a.wf(),
        b.wf(),
    ensures
        r <==> a.as_map() == b.as_map(),
{
    let na = a.entries.len();
    let mut i: usize = 0;
    while i < na
        invariant
            na == a.entries@.len(),
            0 <= i <= na,
            a.wf(),
            b.wf(),
            forall|j: int| 0 <= j < i ==> b.as_map().contains_key((#[trigger] a.entries@[j]).0)
                && b.as_map()[a.entries@[j].0] == a.entries@[j].1 as int,
        decreases na - i,
    {
        let (k, v) = a.entries[i];
        match b.get(k) {
            Some(w) => {
                if w != v {
                    proof {
                        lemma_assoc_at(a.entries@, i as int);
                    }
                    return false;
                }
            },
            None => {
                proof {
                    lemma_assoc_at(a.entries@, i as int);
                }
                return false;
            },
        }
        i += 1;
    }
    let nb = b.entries.len();
    let mut t: usize = 0;
    while t < nb
        invariant
            na == a.entries@.len(),
            nb == b.entries@.len(),
            0 <= t <= nb,
            a.wf(),
            b.wf(),
            forall|j: int| 0 <= j < na ==> b.as_map().contains_key((#[trigger] a.entries@[j]).0)
                && b.as_map()[a.entries@[j].0] == a.entries@[j].1 as int,
            forall|j: int| 0 <= j < t ==> a.as_map().contains_key((#[trigger] b.entries@[j]).0),
        decreases nb - t,
    {
        let (k, _) = b.entries[t];
        match a.get(k) {
            Some(_) => {},
            None => {
                proof {
                    lemma_assoc_at(b.entries@, t as int);
                }
                return false;
            },
        }
        t += 1;
    }
    proof {
        assert forall|k: u64| a.as_map().dom().contains(k) == b.as_map().dom().contains(k) by {
            assert(a.as_map().dom().contains(k) == a.as_map().contains_key(k));
            assert(b.as_map().dom().contains(k) == b.as_map().contains_key(k));
            lemma_assoc_contains(a.entries@, k);
            lemma_assoc_contains(b.entries@, k);
            if a.as_map().contains_key(k) {
                let j = choose|j: int| 0 <= j < a.entries@.len() && (#[trigger] a.entries@[j]).0
                    == k;
                assert(b.as_map().contains_key((a.entries@[j]).0));
            }
            if b.as_map().contains_key(k) {
                let j = choose|j: int| 0 <= j < b.entries@.len() && (#[trigger] b.entries@[j]).0
                    == k;
                assert(a.as_map().contains_key((b.entries@[j]).0));
            }
        }
        assert(a.as_map().dom() =~= b.as_map().dom());
        assert forall|k: u64| a.as_map().dom().contains(k) implies a.as_map()[k]
            == b.as_map()[k] by {
            assert(a.as_map().contains_key(k));
            lemma_assoc_contains(a.entries@, k);
            let j = choose|j: int| 0 <= j < a.entries@.len() && (#[trigger] a.entries@[j]).0 == k;
            lemma_assoc_at(a.entries@, j);
            assert(b.as_map().contains_key((a.entries@[j]).0) && b.as_map()[a.entries@[j].0]
                == a.entries@[j].1 as int);
        }
        assert(a.as_map() =~= b.as_map());
    }
    true
}

} // verus!
