//! Insertion sort of keyed pairs.

use vstd::prelude::*;
use vstd::seq_lib::{group_to_multiset_ensures, to_multiset_build, to_multiset_insert};

verus! {

/// The pairs are in non-decreasing order of their first component.
pub open spec fn sorted_by_key(s: Seq<(u64, u64)>) -> bool {
    forall|a: int, b: int| 0 <= a < b < s.len() ==> s[a].0 <= s[b].0
}

/// The pairs of `v`, rearranged into non-decreasing order of their first
/// component.
pub fn sort_by_key(v: &Vec<(u64, u64)>) -> (r: Vec<(u64, u64)>)
    ensures
        r@.to_multiset() == v@.to_multiset(),
        r@.len() == v@.len(),
        sorted_by_key(r@),
{
    broadcast use group_to_multiset_ensures;

    let mut r: Vec<(u64, u64)> = Vec::new();
    let mut i: usize = 0;
    assert(v@.take(0) =~= Seq::<(u64, u64)>::empty());
    assert(r@ =~= Seq::<(u64, u64)>::empty());
    while i < v.len()
        invariant
            i <= v@.len(),
            r@.to_multiset() == v@.take(i as int).to_multiset(),
            r@.len() == i,
            sorted_by_key(r@),
        decreases v@.len() - i,
    {
        let x = v[i];
        let mut j: usize = 0;
        while j < r.len() && r[j].0 <= x.0
            invariant
                j <= r@.len(),
                forall|k: int| 0 <= k < j ==> r@[k].0 <= x.0,
            decreases r@.len() - j,
        {
            j = j + 1;
        }
        let ghost old_r = r@;
        proof {
            old_r.insert_ensures(j as int, x);
        }
        r.insert(j, x);
        assert forall|a: int, b: int| 0 <= a < b < r@.len() implies r@[a].0 <= r@[b].0 by {
            if b < j {
            } else if b == j {
            } else if a < j {
                assert(r@[b] == old_r[b - 1]);
                assert(old_r[j as int].0 > x.0);
                assert(old_r[j as int].0 <= old_r[b - 1].0);
            } else if a == j {
                assert(r@[b] == old_r[b - 1]);
                assert(old_r[j as int].0 <= old_r[b - 1].0);
            } else {
                assert(r@[a] == old_r[a - 1]);
                assert(r@[b] == old_r[b - 1]);
            }
        }
        assert(v@.take(i + 1) =~= v@.take(i as int).push(x));
        assert(r@.to_multiset() == old_r.insert(j as int, x).to_multiset());
        proof {
            to_multiset_insert(old_r, j as int, x);
            to_multiset_build(v@.take(i as int), x);
        }
        i = i + 1;
    }
    assert(v@.take(v@.len() as int) =~= v@);
    r
}

} // verus!
