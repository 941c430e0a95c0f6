//! The example event ids kept with a cluster: new ids are added to the
//! current ones, and when there are more than the limit only the largest
//! (most recent) ones are kept, in ascending order.

use vstd::prelude::*;
use vstd::multiset::Multiset;

verus! {

/// The most example ids a cluster keeps.
pub const MAX_EXAMPLE_NUM: usize = 25;

/// The ids never decrease along `s`.
pub open spec fn ascending(s: Seq<u64>) -> bool {
    forall|a: int, b: int| 0 <= a < b < s.len() ==> s[a] <= s[b]
}

/// `r` holds the `n` largest ids of `all` (with repetitions), in ascending
/// order: what sorting `all` and keeping its last `n` ids gives.
pub open spec fn largest_sorted(all: Seq<u64>, r: Seq<u64>, n: nat) -> bool {
    &&& r.len() == n
    &&& ascending(r)
    &&& r.to_multiset().subset_of(all.to_multiset())
    &&& forall|x: u64| #[trigger] all.to_multiset().sub(r.to_multiset()).contains(x) ==> x <= r[0]
}

/// The examples after merging `new` ids into `current` ones: unchanged
/// without new ids; otherwise the current ids followed by the new ones,
/// cut down to the largest `MAX_EXAMPLE_NUM` when there are more.
pub open spec fn merged_examples(current: Option<Seq<u64>>, new: Option<Seq<u64>>, r: Option<Seq<u64>>) -> bool {
    match new {
        None => r == current,
        Some(n) => {
            let all = match current {
                Some(c) => c,
                None => Seq::empty(),
            } + n;
            if all.len() > MAX_EXAMPLE_NUM {
                r matches Some(t) && largest_sorted(all, t, MAX_EXAMPLE_NUM as nat)
            } else {
                r == Some(all)
            }
        },
    }
}

/// The ids sorted in ascending order.
pub fn sort_ids(v: &Vec<u64>) -> (r: Vec<u64>)
    ensures
        ascending(r@),
        r@.to_multiset() == v@.to_multiset(),
{
    broadcast use vstd::seq_lib::group_to_multiset_ensures;
    let mut r: Vec<u64> = Vec::new();
    let mut i: usize = 0;
    while i < v.len()
        invariant
            i <= v@.len(),
            ascending(r@),
            r@.to_multiset() == v@.take(i as int).to_multiset(),
        decreases v@.len() - i,
    {
        let x = v[i];
        let mut p: usize = 0;
        while p < r.len() && r[p] <= x
            invariant
                p <= r@.len(),
                forall|m: int| 0 <= m < p ==> #[trigger] r@[m] <= x,
            decreases r@.len() - p,
        {
            p = p + 1;
        }
        let ghost old_r = r@;
        r.insert(p, x);
        proof {
            assert forall|a: int, b: int| 0 <= a < b < r@.len() implies r@[a] <= r@[b] by {
                if b < p {
                } else if b == p {
                    assert(old_r[a] <= x);
                } else if a < p {
                    assert(old_r[a] <= x);
                    assert(x < old_r[p as int]);
                    assert(old_r[p as int] <= old_r[b - 1]);
                } else if a == p {
                    assert(x < old_r[p as int]);
                    assert(old_r[p as int] <= old_r[b - 1]);
                }
            }
            assert(v@.take(i + 1) =~= v@.take(i as int).push(x));
            vstd::seq_lib::to_multiset_insert(old_r, p as int, x);
            vstd::seq_lib::to_multiset_build(v@.take(i as int), x);
            assert(r@ == old_r.insert(p as int, x));
        }
        i = i + 1;
    }
    assert(v@.take(i as int) =~= v@);
    r
}

proof fn lemma_suffix_is_largest(t: Seq<u64>, all: Seq<u64>, k: int)
    requires
        ascending(t),
        t.to_multiset() == all.to_multiset(),
        0 <= k < t.len(),
    ensures
        largest_sorted(all, t.skip(k), (t.len() - k) as nat),
{
    broadcast use vstd::seq_lib::group_to_multiset_ensures;
    broadcast use vstd::multiset::group_multiset_axioms;
    let r = t.skip(k);
    let pre = t.take(k);
    assert(t =~= pre + r);
    vstd::seq_lib::lemma_multiset_commutative(pre, r);
    assert(all.to_multiset() =~= pre.to_multiset().add(r.to_multiset()));
    assert(all.to_multiset().sub(r.to_multiset()) =~= pre.to_multiset());
    assert forall|x: u64| #[trigger] all.to_multiset().sub(r.to_multiset()).contains(x) implies x <= r[0] by {
        assert(pre.to_multiset().count(x) > 0);
        assert(pre.contains(x));
        let j = choose|j: int| 0 <= j < pre.len() && pre[j] == x;
        assert(t[j] <= t[k]);
    }
}

/// The last `MAX_EXAMPLE_NUM` ids of `all` once sorted.
fn largest_examples(all: &Vec<u64>) -> (r: Vec<u64>)
    requires
        all@.len() > MAX_EXAMPLE_NUM,
    ensures
        largest_sorted(all@, r@, MAX_EXAMPLE_NUM as nat),
{
    let t = sort_ids(all);
    proof {
        vstd::seq_lib::to_multiset_len(t@);
        vstd::seq_lib::to_multiset_len(all@);
    }
    let k = t.len() - MAX_EXAMPLE_NUM;
    let mut r: Vec<u64> = Vec::new();
    let mut i: usize = k;
    while i < t.len()
        invariant
            k <= i <= t@.len(),
            r@ == t@.subrange(k as int, i as int),
        decreases t@.len() - i,
    {
        r.push(t[i]);
        i = i + 1;
        assert(r@ =~= t@.subrange(k as int, i as int));
    }
    proof {
        lemma_suffix_is_largest(t@, all@, k as int);
        assert(r@ =~= t@.skip(k as int));
    }
    r
}

/// The current ids followed by the new ones.
fn concat_ids(current: &Vec<u64>, new: &Vec<u64>) -> (r: Vec<u64>)
    ensures
        r@ == current@ + new@,
{
    let mut r: Vec<u64> = Vec::new();
    let mut i: usize = 0;
    while i < current.len()
        invariant
            i <= current@.len(),
            r@ == current@.take(i as int),
        decreases current@.len() - i,
    {
        r.push(current[i]);
        i = i + 1;
        assert(r@ =~= current@.take(i as int));
    }
    let mut j: usize = 0;
    while j < new.len()
        invariant
            j <= new@.len(),
            r@ == current@ + new@.take(j as int),
        decreases new@.len() - j,
    {
        r.push(new[j]);
        j = j + 1;
        assert(r@ =~= current@ + new@.take(j as int));
    }
    assert(current@.take(current@.len() as int) =~= current@);
    assert(new@.take(new@.len() as int) =~= new@);
    r
}

/// Merges new example ids into the current ones: the current ids followed
/// by the new ones, or only the largest `MAX_EXAMPLE_NUM` of them, sorted,
/// when there are more; the current ids when no new ones are given.
pub fn merge_cluster_examples(current: Option<Vec<u64>>, new: Option<Vec<u64>>) -> (r: Option<Vec<u64>>)
    ensures
        merged_examples(
            match current { Some(c) => Some(c@), None => None },
            match new { Some(n) => Some(n@), None => None },
            match r { Some(v) => Some(v@), None => None },
        ),
{
    match new {
        None => current,
        Some(n) => {
            let cur = match current {
                Some(c) => c,
                None => Vec::new(),
            };
            let all = concat_ids(&cur, &n);
            if all.len() > MAX_EXAMPLE_NUM {
                Some(largest_examples(&all))
            } else {
                Some(all)
            }
        },
    }
}

/// Merging no new ids keeps the current examples; merging new ids always
/// gives examples, never more than `MAX_EXAMPLE_NUM` of them.
pub proof fn law_merged_examples_bounded(current: Option<Seq<u64>>, new: Option<Seq<u64>>, r: Option<Seq<u64>>)
    requires
        merged_examples(current, new, r),
    ensures
        new is None ==> r == current,
        new is Some ==> (r matches Some(t) && t.len() <= MAX_EXAMPLE_NUM),
{
}

/// Merging new ids keeps every id while there are at most 25, the current
/// ones first; past 25 it keeps exactly 25 of them in ascending order,
/// each taken from the current or new ids, and every id dropped is no
/// larger than any id kept.
pub proof fn law_merge_keeps_recent(current: Option<Seq<u64>>, n: Seq<u64>, r: Option<Seq<u64>>)
    requires
        merged_examples(current, Some(n), r),
    ensures
        ({
            let all = match current { Some(c) => c, None => Seq::empty() } + n;
            &&& all.len() <= 25 ==> r == Some(all)
            &&& all.len() > 25 ==> (r matches Some(t) && {
                &&& t.len() == 25
                &&& (forall|a: int, b: int| 0 <= a < b < 25 ==> t[a] <= t[b])
                &&& t.to_multiset().subset_of(all.to_multiset())
                &&& forall|x: u64, k: int| 0 <= k < 25 && #[trigger] all.to_multiset().sub(t.to_multiset()).contains(x) ==> x <= #[trigger] t[k]
            })
        }),
{
    let all = match current { Some(c) => c, None => Seq::empty() } + n;
    if all.len() > 25 {
        let t = r->0;
        assert forall|x: u64, k: int| 0 <= k < 25 && #[trigger] all.to_multiset().sub(t.to_multiset()).contains(x) implies x <= #[trigger] t[k] by {
            assert(x <= t[0]);
            if k > 0 {
                assert(t[0] <= t[k]);
            }
        }
    }
}

} // verus!
