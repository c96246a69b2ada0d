//! Ascending sorts of small vectors, proved to produce the unique sorted
//! rearrangement of their input.

use vstd::prelude::*;
use vstd::relations::{sorted_by, total_ordering};

verus! {

broadcast use vstd::seq_lib::group_to_multiset_ensures;

pub open spec fn usize_le() -> spec_fn(usize, usize) -> bool {
    |x: usize, y: usize| x <= y
}

pub open spec fn i32_le() -> spec_fn(i32, i32) -> bool {
    |x: i32, y: i32| x <= y
}

/// Lexicographic order on pairs: first by the first component, then by the second.
pub open spec fn pair_le() -> spec_fn((usize, usize), (usize, usize)) -> bool {
    |x: (usize, usize), y: (usize, usize)| x.0 < y.0 || (x.0 == y.0 && x.1 <= y.1)
}

pub proof fn lemma_usize_le_total()
    ensures
        total_ordering(usize_le()),
{
}

pub proof fn lemma_i32_le_total()
    ensures
        total_ordering(i32_le()),
{
}

pub proof fn lemma_pair_le_total()
    ensures
        total_ordering(pair_le()),
{
}

/// Sequences holding the same elements sort to the same sequence.
pub proof fn lemma_sorted_same<A>(s1: Seq<A>, s2: Seq<A>, leq: spec_fn(A, A) -> bool)
    requires
        s1.to_multiset() == s2.to_multiset(),
        vstd::relations::total_ordering(leq),
    ensures
        s1.sort_by(leq) == s2.sort_by(leq),
{
    s1.lemma_sort_by_ensures(leq);
    s2.lemma_sort_by_ensures(leq);
    vstd::seq_lib::lemma_sorted_unique(s1.sort_by(leq), s2.sort_by(leq), leq);
}

/// The elements of `v` in ascending order.
pub fn sorted_usizes(v: &Vec<usize>) -> (r: Vec<usize>)
    ensures
        r@ == v@.sort_by(usize_le()),
        sorted_by(r@, usize_le()),
        r@.to_multiset() == v@.to_multiset(),
{
    let mut r: Vec<usize> = Vec::new();
    let mut i: usize = 0;
    while i < v.len()
        invariant
            i <= v@.len(),
            sorted_by(r@, usize_le()),
            r@.to_multiset() == v@.take(i as int).to_multiset(),
        decreases v@.len() - i,
    {
        let x = v[i];
        let mut p: usize = 0;
        while p < r.len() && r[p] <= x
            invariant
                p <= r@.len(),
                forall|j: int| 0 <= j < p ==> r@[j] <= x,
            decreases r@.len() - p,
        {
            p = p + 1;
        }
        let ghost before = r@;
        r.insert(p, x);
        assert(sorted_by(r@, usize_le())) by {
            assert forall|a: int, b: int| 0 <= a < b < r@.len() implies #[trigger] usize_le()(r@[a], r@[b]) by {
                if b == p as int {
                    assert(r@[a] == before[a]);
                } else if a == p as int {
                    assert(r@[b] == before[b - 1]);
                    assert(p < before.len());
                    assert(usize_le()(before[p as int], before[b - 1]));
                } else {
                    let a0 = if a < p { a } else { a - 1 };
                    let b0 = if b < p { b } else { b - 1 };
                    assert(r@[a] == before[a0]);
                    assert(r@[b] == before[b0]);
                    assert(usize_le()(before[a0], before[b0]));
                }
            }
        }
        assert(v@.take(i + 1) =~= v@.take(i as int).push(x));
        i = i + 1;
    }
    assert(v@.take(v@.len() as int) =~= v@);
    proof {
        lemma_usize_le_total();
        v@.lemma_sort_by_ensures(usize_le());
        vstd::seq_lib::lemma_sorted_unique(r@, v@.sort_by(usize_le()), usize_le());
    }
    r
}

/// The elements of `v` in ascending order.
pub fn sorted_i32s(v: &Vec<i32>) -> (r: Vec<i32>)
    ensures
        r@ == v@.sort_by(i32_le()),
        sorted_by(r@, i32_le()),
        r@.to_multiset() == v@.to_multiset(),
{
    let mut r: Vec<i32> = Vec::new();
    let mut i: usize = 0;
    while i < v.len()
        invariant
            i <= v@.len(),
            sorted_by(r@, i32_le()),
            r@.to_multiset() == v@.take(i as int).to_multiset(),
        decreases v@.len() - i,
    {
        let x = v[i];
        let mut p: usize = 0;
        while p < r.len() && r[p] <= x
            invariant
                p <= r@.len(),
                forall|j: int| 0 <= j < p ==> r@[j] <= x,
            decreases r@.len() - p,
        {
            p = p + 1;
        }
        let ghost before = r@;
        r.insert(p, x);
        assert(sorted_by(r@, i32_le())) by {
            assert forall|a: int, b: int| 0 <= a < b < r@.len() implies #[trigger] i32_le()(r@[a], r@[b]) by {
                if b == p as int {
                    assert(r@[a] == before[a]);
                } else if a == p as int {
                    assert(r@[b] == before[b - 1]);
                    assert(p < before.len());
                    assert(i32_le()(before[p as int], before[b - 1]));
                } else {
                    let a0 = if a < p { a } else { a - 1 };
                    let b0 = if b < p { b } else { b - 1 };
                    assert(r@[a] == before[a0]);
                    assert(r@[b] == before[b0]);
                    assert(i32_le()(before[a0], before[b0]));
                }
            }
        }
        assert(v@.take(i + 1) =~= v@.take(i as int).push(x));
        i = i + 1;
    }
    assert(v@.take(v@.len() as int) =~= v@);
    proof {
        lemma_i32_le_total();
        v@.lemma_sort_by_ensures(i32_le());
        vstd::seq_lib::lemma_sorted_unique(r@, v@.sort_by(i32_le()), i32_le());
    }
    r
}

/// The pairs of `v` in lexicographic order.
pub fn sorted_pairs(v: &Vec<(usize, usize)>) -> (r: Vec<(usize, usize)>)
    ensures
        r@ == v@.sort_by(pair_le()),
        sorted_by(r@, pair_le()),
        r@.to_multiset() == v@.to_multiset(),
{
    let mut r: Vec<(usize, usize)> = Vec::new();
    let mut i: usize = 0;
    while i < v.len()
        invariant
            i <= v@.len(),
            sorted_by(r@, pair_le()),
            r@.to_multiset() == v@.take(i as int).to_multiset(),
        decreases v@.len() - i,
    {
        let x = v[i];
        let mut p: usize = 0;
        while p < r.len() && (r[p].0 < x.0 || (r[p].0 == x.0 && r[p].1 <= x.1))
            invariant
                p <= r@.len(),
                forall|j: int| 0 <= j < p ==> pair_le()(r@[j], x),
            decreases r@.len() - p,
        {
            p = p + 1;
        }
        let ghost before = r@;
        r.insert(p, x);
        assert(sorted_by(r@, pair_le())) by {
            assert forall|a: int, b: int| 0 <= a < b < r@.len() implies #[trigger] pair_le()(r@[a], r@[b]) by {
                if b == p as int {
                    assert(r@[a] == before[a]);
                } else if a == p as int {
                    assert(r@[b] == before[b - 1]);
                    assert(p < before.len());
                    assert(pair_le()(before[p as int], before[b - 1]));
                } else {
                    let a0 = if a < p { a } else { a - 1 };
                    let b0 = if b < p { b } else { b - 1 };
                    assert(r@[a] == before[a0]);
                    assert(r@[b] == before[b0]);
                    assert(pair_le()(before[a0], before[b0]));
                }
            }
        }
        assert(v@.take(i + 1) =~= v@.take(i as int).push(x));
        i = i + 1;
    }
    assert(v@.take(v@.len() as int) =~= v@);
    proof {
        lemma_pair_le_total();
        v@.lemma_sort_by_ensures(pair_le());
        vstd::seq_lib::lemma_sorted_unique(r@, v@.sort_by(pair_le()), pair_le());
    }
    r
}

} // verus!
