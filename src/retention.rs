//! Retention: which completed episodes are pruned when a cap is exceeded.
use vstd::prelude::*;
use crate::ordering::{order_indices, precedes, sorted_by, SortKey};

verus! {

broadcast use vstd::seq_lib::group_to_multiset_ensures;

/// A completed episode of a subscription, as the pruning sees it.
#[derive(Debug, Clone)]
pub struct CompletedEpisode {
    pub id: i64,
    pub pub_date: Option<i64>,
    pub discovered_at: i64,
    pub download_path: Option<String>,
}

/// Oldest first: undated episodes, then by publication date, then by the
/// time of discovery.
pub open spec fn retention_key(e: CompletedEpisode) -> SortKey {
    match e.pub_date {
        Some(t) => (1, t as i128, e.discovered_at as i128),
        None => (0, 0, e.discovered_at as i128),
    }
}

pub open spec fn retention_keys(es: Seq<CompletedEpisode>) -> Seq<SortKey> {
    es.map_values(|e: CompletedEpisode| retention_key(e))
}

/// How many completed episodes are over the cap (none without a positive cap).
pub open spec fn excess(count: int, max_episodes: Option<i32>) -> int {
    match max_episodes {
        Some(m) => if m > 0 && count > m {
            count - m
        } else {
            0
        },
        None => 0,
    }
}

fn retention_key_exec(e: &CompletedEpisode) -> (r: SortKey)
    ensures
        r == retention_key(*e),
{
    match e.pub_date {
        Some(t) => (1, t as i128, e.discovered_at as i128),
        None => (0, 0, e.discovered_at as i128),
    }
}

/// The completed episodes to prune, oldest first: as many as are over the
/// cap, each older than every episode kept.
pub fn select_for_cleanup(completed: &Vec<CompletedEpisode>, max_episodes: Option<i32>) -> (r: Vec<
    usize,
>)
    ensures
        r@.len() == excess(completed@.len() as int, max_episodes),
        sorted_by(retention_keys(completed@), r@),
        forall|a: int| 0 <= a < r@.len() ==> #[trigger] r@[a] < completed@.len(),
        forall|a: int, j: int|
            0 <= a < r@.len() && 0 <= j < completed@.len() && !r@.contains(j as usize) ==> precedes(
                retention_keys(completed@),
                r@[a] as int,
                j,
            ),
{
    let n = completed.len();
    let mut keys: Vec<SortKey> = Vec::new();
    let mut members: Vec<usize> = Vec::new();
    let mut i: usize = 0;
    while i < n
        invariant
            n == completed@.len(),
            i <= n,
            keys@.len() == i,
            members@.len() == i,
            forall|k: int| 0 <= k < i ==> keys@[k] == #[trigger] retention_key(completed@[k]),
            forall|k: int| 0 <= k < i ==> #[trigger] members@[k] == k,
        decreases n - i,
    {
        keys.push(retention_key_exec(&completed[i]));
        members.push(i);
        i = i + 1;
    }
    assert(keys@ =~= retention_keys(completed@));
    let ordered = order_indices(&keys, &members);
    let count = match max_episodes {
        Some(m) => if m > 0 && n as i128 > m as i128 {
            n - m as usize
        } else {
            0
        },
        None => 0,
    };
    let mut r: Vec<usize> = Vec::new();
    let mut j: usize = 0;
    while j < count
        invariant
            count <= ordered@.len(),
            j <= count,
            r@ == ordered@.subrange(0, j as int),
        decreases count - j,
    {
        r.push(ordered[j]);
        j = j + 1;
        assert(r@ =~= ordered@.subrange(0, j as int));
    }
    proof {
        assert forall|a: int, k: int|
            0 <= a < r@.len() && 0 <= k < completed@.len() && !r@.contains(
                k as usize,
            ) implies precedes(retention_keys(completed@), r@[a] as int, k) by {
            assert(members@[k] == k as usize);
            assert(members@.to_multiset().count(k as usize) > 0);
            assert(ordered@.contains(k as usize));
            let b = choose|b: int| 0 <= b < ordered@.len() && ordered@[b] == k as usize;
            if b < count {
                assert(r@[b] == k as usize);
            }
            assert(r@[a] == ordered@[a]);
        }
    }
    r
}

/// Pruning keeps exactly the cap: where a positive cap `K` is exceeded,
/// removing the selected episodes leaves `K`.
pub proof fn lemma_cleanup_leaves_cap(count: int, k: i32)
    requires
        k > 0,
        count > k,
    ensures
        count - excess(count, Some(k)) == k,
{
}

} // verus!
