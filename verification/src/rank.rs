//! Stable descending ranking: orders the positions of a key sequence by
//! decreasing key, positions with equal keys keeping their original order.
//! This pins the ranking down uniquely, which is what makes the process
//! lists stable.

use vstd::prelude::*;
use crate::snapshot::ProcEntry;

verus! {

/// Strict total order on positions of `keys`: `i` comes before `j` when
/// its key is larger, or on equal keys when `i` is the earlier position.
pub open spec fn precede(keys: Seq<u64>, i: int, j: int) -> bool {
    keys[i] > keys[j] || (keys[i] == keys[j] && i < j)
}

/// `idx` lists positions of `keys`, pairwise distinct, each in range, in
/// strictly `precede`-ascending order, and covering every position.
/// Because `precede` is a strict total order on distinct positions, only
/// one sequence satisfies this: the stable descending ranking.
pub open spec fn stable_desc_ranking(keys: Seq<u64>, idx: Seq<usize>) -> bool {
    &&& idx.len() == keys.len()
    &&& (forall|a: int| 0 <= a < idx.len() ==> (#[trigger] idx[a]) < keys.len())
    &&& (forall|a: int, b: int|
        0 <= a < b < idx.len() ==> precede(keys, idx[a] as int, idx[b] as int))
    &&& (forall|j: int| 0 <= j < keys.len() ==> #[trigger] idx.contains(j as usize))
}

fn precede_exec(keys: &Vec<u64>, i: usize, j: usize) -> (r: bool)
    requires
        i < keys@.len(),
        j < keys@.len(),
    ensures
        r == precede(keys@, i as int, j as int),
{
    keys[i] > keys[j] || (keys[i] == keys[j] && i < j)
}

/// A sequence of `n` distinct values below `n` holds every value below
/// `n`: pigeonhole over the set of values.
proof fn lemma_distinct_range_complete(s: Seq<usize>, n: int)
    requires
        s.len() == n,
        forall|a: int| 0 <= a < n ==> (#[trigger] s[a]) < n,
        forall|a: int, b: int| 0 <= a < b < n ==> s[a] != s[b],
    ensures
        forall|j: int| 0 <= j < n ==> #[trigger] s.contains(j as usize),
{
    let si = Seq::new(n as nat, |a: int| s[a] as int);
    assert(si.no_duplicates());
    si.unique_seq_to_set();
    let range = vstd::set_lib::set_int_range(0, n);
    vstd::set_lib::lemma_int_range(0, n);
    assert(si.to_set().subset_of(range));
    assert forall|j: int| 0 <= j < n implies #[trigger] s.contains(j as usize) by {
        if !si.to_set().contains(j) {
            assert(si.to_set().subset_of(range.remove(j)));
            assert(range.remove(j).len() == n - 1);
            vstd::set_lib::lemma_len_subset(si.to_set(), range.remove(j));
            assert(false);
        }
        let a = choose|a: int| 0 <= a < si.len() && si[a] == j;
        assert(s[a] == j as usize);
    }
}

/// Computes the stable descending ranking of `keys`: `idx[0]` is the
/// position of the largest key (earliest such position on ties), and so
/// on downward.
pub fn stable_rank_desc(keys: &Vec<u64>) -> (idx: Vec<usize>)
    ensures
        stable_desc_ranking(keys@, idx@),
{
    let n = keys.len();
    let mut idx: Vec<usize> = Vec::new();
    let mut t: usize = 0;
    while t < n
        invariant
            t <= n,
            idx@.len() == t,
            forall|a: int| 0 <= a < t ==> (#[trigger] idx@[a]) == a,
        decreases n - t,
    {
        idx.push(t);
        t = t + 1;
    }
    if n == 0 {
        return idx;
    }
    let mut i: usize = 1;
    while i < n
        invariant
            1 <= i <= n,
            n == keys@.len(),
            idx@.len() == n,
            forall|a: int| 0 <= a < n ==> (#[trigger] idx@[a]) < n,
            forall|a: int, b: int| 0 <= a < b < n ==> idx@[a] != idx@[b],
            forall|a: int, b: int|
                0 <= a < b < i ==> precede(keys@, idx@[a] as int, idx@[b] as int),
        decreases n - i,
    {
        let mut j: usize = i;
        while j > 0 && precede_exec(keys, idx[j], idx[j - 1])
            invariant
                0 <= j <= i < n,
                n == keys@.len(),
                idx@.len() == n,
                forall|a: int| 0 <= a < n ==> (#[trigger] idx@[a]) < n,
                forall|a: int, b: int| 0 <= a < b < n ==> idx@[a] != idx@[b],
                forall|a: int, b: int|
                    0 <= a < b <= i && b != j ==> precede(keys@, idx@[a] as int, idx@[b] as int),
            decreases j,
        {
            let x = idx[j];
            let y = idx[j - 1];
            idx.set(j, y);
            idx.set(j - 1, x);
            j = j - 1;
        }
        proof {
            if j > 0 {
                assert(idx@[j - 1] != idx@[j as int]);
                assert(!precede(keys@, idx@[j as int] as int, idx@[j - 1] as int));
                assert(precede(keys@, idx@[j - 1] as int, idx@[j as int] as int));
            }
            assert forall|a: int, b: int|
                0 <= a < b <= i implies precede(keys@, idx@[a] as int, idx@[b] as int) by {
                if b == j && a < j {
                    assert(precede(keys@, idx@[j - 1] as int, idx@[j as int] as int));
                    if a < j - 1 {
                        assert(precede(keys@, idx@[a] as int, idx@[j - 1] as int));
                    }
                }
            }
        }
        i = i + 1;
    }
    proof {
        lemma_distinct_range_complete(idx@, n as int);
    }
    idx
}

/// Default length of the ranked process lists.
pub const TOP_PROCESS_LIMIT: usize = 15;

/// The CPU keys of a process list, position by position.
pub open spec fn cpu_keys(procs: Seq<ProcEntry>) -> Seq<u64> {
    Seq::new(procs.len(), |i: int| procs[i].cpu_milli)
}

/// The memory keys of a process list, position by position.
pub open spec fn mem_keys(procs: Seq<ProcEntry>) -> Seq<u64> {
    Seq::new(procs.len(), |i: int| procs[i].memory)
}

/// `out` is the prefix of length `min(n, |procs|)` of `procs` reordered by
/// the stable descending ranking of `keys`: the top `n`, largest keys
/// first, ties in original order, the input untouched.
pub open spec fn is_top_ranked(
    procs: Seq<ProcEntry>,
    out: Seq<ProcEntry>,
    keys: Seq<u64>,
    n: int,
) -> bool {
    exists|idx: Seq<usize>|
        {
            &&& #[trigger] stable_desc_ranking(keys, idx)
            &&& out.len() == vstd::math::min(n, procs.len() as int)
            &&& forall|k: int| 0 <= k < out.len() ==> out[k] == procs[idx[k] as int]
        }
}

fn take_top(procs: &Vec<ProcEntry>, keys: &Vec<u64>, n: usize) -> (res: (
    Vec<ProcEntry>,
    Ghost<Seq<usize>>,
))
    requires
        keys@.len() == procs@.len(),
    ensures
        res.0@.len() == vstd::math::min(n as int, procs@.len() as int),
        stable_desc_ranking(keys@, res.1@),
        forall|k: int| 0 <= k < res.0@.len() ==> res.0@[k] == procs@[res.1@[k] as int],
{
    let idx = stable_rank_desc(keys);
    let m: usize = if n < procs.len() {
        n
    } else {
        procs.len()
    };
    let mut r: Vec<ProcEntry> = Vec::new();
    let mut k: usize = 0;
    while k < m
        invariant
            0 <= k <= m,
            m == vstd::math::min(n as int, procs@.len() as int),
            keys@.len() == procs@.len(),
            idx@.len() == procs@.len(),
            stable_desc_ranking(keys@, idx@),
            r@.len() == k,
            forall|t: int| 0 <= t < k ==> r@[t] == procs@[idx@[t] as int],
        decreases m - k,
    {
        r.push(procs[idx[k]].duplicate());
        k = k + 1;
    }
    (r, Ghost(idx@))
}

/// The at most `n` processes with the highest CPU utilization, highest
/// first, processes with equal utilization in their original order.
pub fn top_by_cpu(procs: &Vec<ProcEntry>, n: usize) -> (r: Vec<ProcEntry>)
    ensures
        r@.len() == vstd::math::min(n as int, procs@.len() as int),
        is_top_ranked(procs@, r@, cpu_keys(procs@), n as int),
        forall|a: int, b: int| 0 <= a < b < r@.len() ==> (#[trigger] r@[a]).cpu_milli
            >= (#[trigger] r@[b]).cpu_milli,
{
    let mut keys: Vec<u64> = Vec::new();
    let mut i: usize = 0;
    let len = procs.len();
    while i < len
        invariant
            0 <= i <= len,
            len == procs@.len(),
            keys@.len() == i,
            forall|t: int| 0 <= t < i ==> keys@[t] == procs@[t].cpu_milli,
        decreases len - i,
    {
        keys.push(procs[i].cpu_milli);
        i = i + 1;
    }
    proof {
        assert(keys@ =~= cpu_keys(procs@));
    }
    let (r, gidx) = take_top(procs, &keys, n);
    proof {
        assert(is_top_ranked(procs@, r@, cpu_keys(procs@), n as int));
        assert forall|a: int, b: int| 0 <= a < b < r@.len() implies (#[trigger] r@[a]).cpu_milli
            >= (#[trigger] r@[b]).cpu_milli by {
            let ia = gidx@[a] as int;
            let ib = gidx@[b] as int;
            assert(precede(keys@, ia, ib));
            assert(keys@[ia] == procs@[ia].cpu_milli);
            assert(keys@[ib] == procs@[ib].cpu_milli);
        }
    }
    r
}

/// The at most `n` processes with the highest resident memory, highest
/// first, processes with equal memory in their original order.
pub fn top_by_memory(procs: &Vec<ProcEntry>, n: usize) -> (r: Vec<ProcEntry>)
    ensures
        r@.len() == vstd::math::min(n as int, procs@.len() as int),
        is_top_ranked(procs@, r@, mem_keys(procs@), n as int),
        forall|a: int, b: int| 0 <= a < b < r@.len() ==> (#[trigger] r@[a]).memory
            >= (#[trigger] r@[b]).memory,
{
    let mut keys: Vec<u64> = Vec::new();
    let mut i: usize = 0;
    let len = procs.len();
    while i < len
        invariant
            0 <= i <= len,
            len == procs@.len(),
            keys@.len() == i,
            forall|t: int| 0 <= t < i ==> keys@[t] == procs@[t].memory,
        decreases len - i,
    {
        keys.push(procs[i].memory);
        i = i + 1;
    }
    proof {
        assert(keys@ =~= mem_keys(procs@));
    }
    let (r, gidx) = take_top(procs, &keys, n);
    proof {
        assert(is_top_ranked(procs@, r@, mem_keys(procs@), n as int));
        assert forall|a: int, b: int| 0 <= a < b < r@.len() implies (#[trigger] r@[a]).memory
            >= (#[trigger] r@[b]).memory by {
            let ia = gidx@[a] as int;
            let ib = gidx@[b] as int;
            assert(precede(keys@, ia, ib));
            assert(keys@[ia] == procs@[ia].memory);
            assert(keys@[ib] == procs@[ib].memory);
        }
    }
    r
}

} // verus!
