//! Permutations of positions, as shuffling produces them.
use vstd::prelude::*;

verus! {

/// `p` maps the positions `0..n` one-to-one onto `0..n`.
pub open spec fn is_permutation(p: Seq<int>, n: nat) -> bool {
    &&& p.len() == n
    &&& forall|i: int| 0 <= i < n ==> 0 <= #[trigger] p[i] < n
    &&& forall|i: int, j: int| 0 <= i < n && 0 <= j < n && i != j ==> p[i] != p[j]
    &&& forall|k: int| 0 <= k < n ==> #[trigger] in_image(p, k)
}

/// Some position of `p` holds `k`.
pub open spec fn in_image(p: Seq<int>, k: int) -> bool {
    exists|i: int| 0 <= i < p.len() && p[i] == k
}

/// `after` holds the items of `before`, each exactly once, in some order.
pub open spec fn is_rearrangement<T>(after: Seq<T>, before: Seq<T>) -> bool {
    &&& after.len() == before.len()
    &&& exists|p: Seq<int>|
        is_permutation(p, before.len()) && forall|i: int|
            0 <= i < after.len() ==> #[trigger] after[i] == before[p[i]]
}

/// `m` lists each of the indices `0..n` exactly once.
pub open spec fn is_index_permutation(m: Seq<usize>, n: nat) -> bool {
    is_permutation(m.map_values(|x: usize| x as int), n)
}

/// The indices `0..n` in order.
pub open spec fn identity_indices(n: nat) -> Seq<usize> {
    Seq::new(n, |i: int| i as usize)
}

/// The vector `0, 1, ..., n - 1`.
pub fn index_range(n: usize) -> (v: Vec<usize>)
    ensures
        v@ == identity_indices(n as nat),
{
    let mut v: Vec<usize> = Vec::new();
    let mut i: usize = 0;
    while i < n
        invariant
            i <= n,
            v@ == identity_indices(i as nat),
        decreases n - i,
    {
        v.push(i);
        i = i + 1;
        assert(v@ =~= identity_indices(i as nat));
    }
    v
}

/// Rearranging `0..n` gives a permutation of the indices.
pub proof fn lemma_rearranged_indices(m: Seq<usize>, n: nat)
    requires
        n <= usize::MAX + 1,
        is_rearrangement(m, identity_indices(n)),
    ensures
        is_index_permutation(m, n),
{
    let id = identity_indices(n);
    let p = choose|p: Seq<int>|
        is_permutation(p, id.len()) && forall|i: int| 0 <= i < m.len() ==> #[trigger] m[i] == id[p[i]];
    let mi = m.map_values(|x: usize| x as int);
    assert forall|i: int| 0 <= i < n implies #[trigger] mi[i] == p[i] by {
        assert(m[i] == id[p[i]]);
    }
    assert(mi =~= p);
}

/// Rearranging the items rearranges their views in the same way.
pub proof fn lemma_rearrangement_map<T, U>(after: Seq<T>, before: Seq<T>, f: spec_fn(T) -> U)
    requires
        is_rearrangement(after, before),
    ensures
        is_rearrangement(after.map_values(f), before.map_values(f)),
{
    let p = choose|p: Seq<int>|
        is_permutation(p, before.len()) && forall|i: int|
            0 <= i < after.len() ==> #[trigger] after[i] == before[p[i]];
    let a = after.map_values(f);
    let b = before.map_values(f);
    assert forall|i: int| 0 <= i < a.len() implies #[trigger] a[i] == b[p[i]] by {
        assert(after[i] == before[p[i]]);
    }
}

} // verus!
