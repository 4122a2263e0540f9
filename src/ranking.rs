//! Ordering waypoints by their distance from a point.
//!
//! Waypoints are ranked by distance, with ties broken by their position in
//! the list, so every waypoint has a distinct rank.
use vstd::prelude::*;
use vstd::relations::injective_on;
use vstd::set_lib::*;

verus! {

/// Whether entry `j` comes before entry `i` when ordered by distance and then by index.
pub open spec fn nearer(d: Seq<int>, j: int, i: int) -> bool {
    d[j] < d[i] || (d[j] == d[i] && j < i)
}

/// How many of the first `m` entries come before entry `i`.
pub open spec fn count_nearer(d: Seq<int>, i: int, m: nat) -> nat
    decreases m,
{
    if m == 0 {
        0
    } else {
        count_nearer(d, i, (m - 1) as nat) + if nearer(d, m - 1, i) {
            1nat
        } else {
            0nat
        }
    }
}

/// The rank of entry `i`: how many entries come before it.
pub open spec fn rank(d: Seq<int>, i: int) -> nat {
    count_nearer(d, i, d.len())
}

proof fn lemma_count_bound(d: Seq<int>, i: int, m: nat)
    ensures
        count_nearer(d, i, m) <= m,
        0 <= i < m ==> count_nearer(d, i, m) < m,
    decreases m,
{
    if m > 0 {
        lemma_count_bound(d, i, (m - 1) as nat);
    }
}

proof fn lemma_count_monotone(d: Seq<int>, a: int, b: int, m: nat)
    requires
        0 <= a < d.len(),
        0 <= b < d.len(),
        m <= d.len(),
        nearer(d, a, b),
    ensures
        count_nearer(d, a, m) <= count_nearer(d, b, m),
        a < m ==> count_nearer(d, a, m) < count_nearer(d, b, m),
    decreases m,
{
    if m > 0 {
        lemma_count_monotone(d, a, b, (m - 1) as nat);
    }
}

/// Distinct entries have distinct ranks.
proof fn lemma_rank_injective(d: Seq<int>, a: int, b: int)
    requires
        0 <= a < d.len(),
        0 <= b < d.len(),
        a != b,
    ensures
        rank(d, a) != rank(d, b),
{
    if nearer(d, a, b) {
        lemma_count_monotone(d, a, b, d.len());
    } else {
        lemma_count_monotone(d, b, a, d.len());
    }
}

/// Every rank below the length is held by some entry.
pub proof fn lemma_rank_exists(d: Seq<int>, t: int)
    requires
        0 <= t < d.len(),
    ensures
        exists|i: int| 0 <= i < d.len() && rank(d, i) == t,
{
    let n = d.len() as int;
    let idx = set_int_range(0, n);
    let f = |i: int| rank(d, i) as int;
    lemma_int_range(0, n);
    assert(injective_on(f, idx)) by {
        assert forall|a: int, b: int| idx.contains(a) && idx.contains(b) && #[trigger] f(a) == #[trigger] f(b)
            implies a == b by {
            if a != b {
                lemma_rank_injective(d, a, b);
            }
        }
    }
    let ranks = idx.map(f);
    lemma_map_size(idx, ranks, f);
    assert(ranks.subset_of(idx)) by {
        assert forall|r: int| ranks.contains(r) implies idx.contains(r) by {
            let i = choose|i: int| idx.contains(i) && f(i) == r;
            lemma_count_bound(d, i, d.len());
        }
    }
    lemma_subset_equality(ranks, idx);
    assert(ranks.contains(t));
    let i = choose|i: int| idx.contains(i) && f(i) == t;
    assert(0 <= i < d.len() && rank(d, i) == t);
}

/// Counts the entries of `d` that come before entry `i`.
pub fn count_before(d: &Vec<u64>, i: usize) -> (r: usize)
    requires
        i < d.len(),
    ensures
        r == rank(d@.map_values(|x: u64| x as int), i as int),
{
    let ghost ds = d@.map_values(|x: u64| x as int);
    let mut c: usize = 0;
    let mut j: usize = 0;
    while j < d.len()
        invariant
            j <= d.len(),
            i < d.len(),
            ds == d@.map_values(|x: u64| x as int),
            c == count_nearer(ds, i as int, j as nat),
            c <= j,
        decreases d.len() - j,
    {
        if d[j] < d[i] || (d[j] == d[i] && j < i) {
            c = c + 1;
        }
        j = j + 1;
    }
    c
}

/// Finds the entry of `d` whose rank is `t`.
pub fn find_rank(d: &Vec<u64>, t: usize) -> (r: usize)
    requires
        t < d.len(),
    ensures
        r < d.len(),
        rank(d@.map_values(|x: u64| x as int), r as int) == t,
{
    let ghost ds = d@.map_values(|x: u64| x as int);
    proof {
        lemma_rank_exists(ds, t as int);
    }
    let mut i: usize = 0;
    while i < d.len()
        invariant
            i <= d.len(),
            t < d.len(),
            ds == d@.map_values(|x: u64| x as int),
            exists|k: int| 0 <= k < d.len() && rank(ds, k) == t,
            forall|k: int| 0 <= k < i ==> rank(ds, k) != t,
        decreases d.len() - i,
    {
        if count_before(d, i) == t {
            return i;
        }
        i = i + 1;
    }
    proof {
        let k = choose|k: int| 0 <= k < d.len() && rank(ds, k) == t;
        assert(rank(ds, k) != t);
    }
    0
}

} // verus!
