//! A verified ascending sort for the per-step cross-walk samples.
//!
//! Fixed-point values are machine integers, so the sample always
//! admits a total order: the hazard of a value that breaks the order
//! cannot arise inside the core, and is rejected where the driver
//! converts into the fixed-point domain.

use vstd::prelude::*;
use vstd::relations::sorted_by;
use vstd::relations::total_ordering;
use vstd::seq_lib::lemma_sorted_unique;
use vstd::seq_lib::group_to_multiset_ensures;
use vstd::seq_lib::to_multiset_insert;
use vstd::seq_lib::to_multiset_build;

verus! {

/// The ascending order on fixed-point values.
pub open spec fn leq_i64() -> spec_fn(i64, i64) -> bool {
    |a: i64, b: i64| a <= b
}

/// The ascending rearrangement of a series.
pub open spec fn sorted_of(s: Seq<i64>) -> Seq<i64> {
    s.sort_by(leq_i64())
}

pub proof fn lemma_leq_i64_total_ordering()
    ensures
        total_ordering(leq_i64()),
{
    assert forall|x: i64| #[trigger] leq_i64()(x, x) by {}
}

/// The ascending rearrangement has the length of the series it rearranges.
pub proof fn lemma_sorted_of_len(s: Seq<i64>)
    ensures
        sorted_of(s).len() == s.len(),
{
    lemma_leq_i64_total_ordering();
    s.lemma_sort_by_ensures(leq_i64());
    vstd::seq_lib::to_multiset_len(s);
    vstd::seq_lib::to_multiset_len(sorted_of(s));
}

/// Every element of the ascending rearrangement comes from the series.
pub proof fn lemma_sorted_of_contains(s: Seq<i64>, i: int)
    requires
        0 <= i < s.len(),
    ensures
        s.contains(sorted_of(s)[i]),
{
    broadcast use group_to_multiset_ensures;

    lemma_leq_i64_total_ordering();
    s.lemma_sort_by_ensures(leq_i64());
    lemma_sorted_of_len(s);
    let x = sorted_of(s)[i];
    assert(sorted_of(s).contains(x));
    assert(sorted_of(s).to_multiset().count(x) > 0);
}

/// Insertion sort: returns the ascending rearrangement of `data`.
pub fn sort(data: &Vec<i64>) -> (r: Vec<i64>)
    ensures
        r@ == sorted_of(data@),
{
    let n = data.len();
    let mut r: Vec<i64> = Vec::new();
    let mut i: usize = 0;
    proof {
        assert(r@ =~= data@.subrange(0, 0));
    }
    while i < n
        invariant
            n == data@.len(),
            0 <= i <= n,
            sorted_by(r@, leq_i64()),
            r@.to_multiset() == data@.subrange(0, i as int).to_multiset(),
            r@.len() == i,
        decreases n - i,
    {
        let x = data[i];
        let mut j: usize = 0;
        while j < r.len() && *r.get(j).unwrap() <= x
            invariant
                0 <= j <= r@.len(),
                forall|k: int| 0 <= k < j ==> r@[k] <= x,
            decreases r@.len() - j,
        {
            j = j + 1;
        }
        let ghost r_old = r@;
        r.insert(j, x);
        proof {
            assert forall|a: int, b: int| 0 <= a < b < r@.len() implies #[trigger] leq_i64()(
                r@[a],
                r@[b],
            ) by {
                if b < j {
                    assert(r@[a] == r_old[a] && r@[b] == r_old[b]);
                } else if a > j {
                    assert(r@[a] == r_old[a - 1] && r@[b] == r_old[b - 1]);
                } else if b == j {
                    assert(r@[a] == r_old[a] && r@[b] == x);
                } else if a == j {
                    assert(r@[a] == x && r@[b] == r_old[b - 1]);
                    assert(j < r_old.len() && !(r_old[j as int] <= x));
                    assert(leq_i64()(r_old[j as int], r_old[b - 1]) || j == b - 1);
                } else {
                    assert(a < j && b > j);
                    assert(r@[a] == r_old[a] && r@[b] == r_old[b - 1]);
                    assert(r_old[a] <= x);
                    if j < r_old.len() {
                        assert(!(r_old[j as int] <= x));
                        assert(leq_i64()(r_old[j as int], r_old[b - 1]) || j == b - 1);
                    }
                }
            }
            to_multiset_insert(r_old, j as int, x);
            to_multiset_build(data@.subrange(0, i as int), data@[i as int]);
            assert(data@.subrange(0, i as int).push(data@[i as int]) =~= data@.subrange(
                0,
                i as int + 1,
            ));
        }
        i = i + 1;
    }
    proof {
        assert(data@.subrange(0, n as int) =~= data@);
        lemma_leq_i64_total_ordering();
        data@.lemma_sort_by_ensures(leq_i64());
        lemma_sorted_unique(r@, sorted_of(data@), leq_i64());
        assert(r@ =~= sorted_of(data@));
    }
    r
}

} // verus!
