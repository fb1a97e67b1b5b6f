//! Sorting and set comparison of instance identifiers. The deposit gate for
//! unique instances sorts both the delivered and the expected identifiers and
//! compares them element-wise, which decides multiset equality — and, since
//! identifiers are unique, set equality.

use vstd::prelude::*;

use vstd::relations::{sorted_by, total_ordering};
use vstd::seq_lib::lemma_sorted_unique;

verus! {

/// Non-decreasing order of identifiers.
pub open spec fn id_sorted(s: Seq<u64>) -> bool {
    forall|i: int, j: int| 0 <= i < j < s.len() ==> #[trigger] s[i] <= #[trigger] s[j]
}

/// The order the sort uses, as a relation value.
pub open spec fn id_leq() -> spec_fn(u64, u64) -> bool {
    |x: u64, y: u64| x <= y
}

/// The identifier order is total.
pub proof fn lemma_id_leq_total()
    ensures
        total_ordering(id_leq()),
{
    assert forall|x: u64, y: u64| #[trigger] id_leq()(x, y) || #[trigger] id_leq()(y, x) by {
        assert(x <= y || y <= x);
    }
}

/// `id_sorted` agrees with vstd's `sorted_by` under the identifier order.
pub proof fn lemma_id_sorted_is_sorted_by(s: Seq<u64>)
    requires
        id_sorted(s),
    ensures
        sorted_by(s, id_leq()),
{
    assert forall|i: int, j: int| 0 <= i < j < s.len() implies #[trigger] id_leq()(
        s[i],
        s[j],
    ) by {
        assert(s[i] <= s[j]);
    }
}

/// Sorts identifiers into non-decreasing order; the result carries exactly
/// the elements of the input.
pub fn sort_ids(v: &Vec<u64>) -> (r: Vec<u64>)
    ensures
        id_sorted(r@),
        r@.to_multiset() == v@.to_multiset(),
{
    let mut out: Vec<u64> = Vec::new();
    let n = v.len();
    let mut i: usize = 0;
    proof {
        assert(v@.take(0) =~= out@);
    }
    while i < n
        invariant
            n == v@.len(),
            0 <= i <= n,
            id_sorted(out@),
            out@.to_multiset() == v@.take(i as int).to_multiset(),
        decreases n - i,
    {
        let x = v[i];
        let m = out.len();
        let mut j: usize = 0;
        while j < m && out[j] <= x
            invariant
                m == out@.len(),
                0 <= j <= m,
                forall|t: int| 0 <= t < j ==> #[trigger] out@[t] <= x,
            decreases m - j,
        {
            j += 1;
        }
        let ghost before = out@;
        out.insert(j, x);
        proof {
            broadcast use vstd::seq_lib::group_to_multiset_ensures;

            assert(out@ == before.insert(j as int, x));
            assert forall|p: int, q: int| 0 <= p < q < out@.len() implies #[trigger] out@[p]
                <= #[trigger] out@[q] by {
                if q < j {
                    assert(out@[p] == before[p] && out@[q] == before[q]);
                } else if p > j {
                    assert(out@[p] == before[p - 1] && out@[q] == before[q - 1]);
                } else if p == j {
                    assert(out@[p] == x && out@[q] == before[q - 1]);
                    assert(j < before.len() ==> before[j as int] > x);
                    assert(before[q - 1] >= x) by {
                        if q - 1 > j {
                            assert(before[j as int] <= before[q - 1]);
                        }
                    }
                } else if q == j {
                    assert(out@[q] == x && out@[p] == before[p]);
                } else {
                    assert(out@[p] == before[p] && out@[q] == before[q - 1]);
                    if q - 1 > p {
                        assert(before[p] <= before[q - 1]);
                    }
                }
            }
            assert(v@.take(i + 1).drop_last() =~= v@.take(i as int));
            assert(v@.take(i + 1).last() == v@[i as int]);
            assert(v@.take(i + 1) =~= v@.take(i as int).push(x));
        }
        i += 1;
    }
    proof {
        assert(v@.take(n as int) =~= v@);
    }
    out
}

/// Element-wise equality of two identifier lists.
pub fn ids_equal(a: &Vec<u64>, b: &Vec<u64>) -> (r: bool)
    ensures
        r <==> a@ == b@,
{
    if a.len() != b.len() {
        proof {
            assert(a@ != b@);
        }
        return false;
    }
    let n = a.len();
    let mut i: usize = 0;
    while i < n
        invariant
            n == a@.len(),
            n == b@.len(),
            0 <= i <= n,
            forall|j: int| 0 <= j < i ==> #[trigger] a@[j] == #[trigger] b@[j],
        decreases n - i,
    {
        if a[i] != b[i] {
            return false;
        }
        i += 1;
    }
    proof {
        assert(a@ =~= b@);
    }
    true
}

/// Whether the delivered identifiers carry exactly the expected ones: the
/// gate sorts both lists and compares element-wise, which holds exactly when
/// the two lists are equal as multisets.
pub fn instance_sets_match(delivered: &Vec<u64>, expected: &Vec<u64>) -> (r: bool)
    ensures
        r <==> delivered@.to_multiset() == expected@.to_multiset(),
{
    let ds = sort_ids(delivered);
    let es = sort_ids(expected);
    let r = ids_equal(&ds, &es);
    proof {
        if !r && delivered@.to_multiset() == expected@.to_multiset() {
            lemma_id_leq_total();
            lemma_id_sorted_is_sorted_by(ds@);
            lemma_id_sorted_is_sorted_by(es@);
            lemma_sorted_unique(ds@, es@, id_leq());
        }
    }
    r
}

/// For lists without duplicates, equality as multisets and equality as sets
/// coincide.
pub proof fn lemma_multiset_eq_iff_set_eq(a: Seq<u64>, b: Seq<u64>)
    requires
        a.no_duplicates(),
        b.no_duplicates(),
    ensures
        (a.to_multiset() == b.to_multiset()) <==> (a.to_set() == b.to_set()),
{
    broadcast use vstd::seq_lib::group_to_multiset_ensures;

    if a.to_multiset() == b.to_multiset() {
        assert forall|x: u64| a.to_set().contains(x) == b.to_set().contains(x) by {
            assert(a.to_set().contains(x) == a.contains(x));
            assert(b.to_set().contains(x) == b.contains(x));
            assert(a.to_multiset().contains(x) == a.contains(x));
            assert(b.to_multiset().contains(x) == b.contains(x));
        }
        assert(a.to_set() =~= b.to_set());
    }
    if a.to_set() == b.to_set() {
        a.lemma_multiset_has_no_duplicates();
        b.lemma_multiset_has_no_duplicates();
        assert forall|x: u64| a.to_multiset().count(x) == b.to_multiset().count(x) by {
            assert(a.to_set().contains(x) == a.contains(x));
            assert(b.to_set().contains(x) == b.contains(x));
            assert(a.to_multiset().contains(x) == a.contains(x));
            assert(b.to_multiset().contains(x) == b.contains(x));
            if a.contains(x) {
                assert(a.to_multiset().count(x) == 1 && b.to_multiset().count(x) == 1);
            } else {
                assert(a.to_multiset().count(x) == 0 && b.to_multiset().count(x) == 0);
            }
        }
        assert(a.to_multiset() =~= b.to_multiset());
    }
}

} // verus!
