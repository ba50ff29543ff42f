//! Stable ordering of records by a key: the order every listing of this
//! library (newest first, oldest first, stalest first) is put in.
use vstd::prelude::*;

verus! {

broadcast use vstd::seq_lib::group_to_multiset_ensures;

/// A sort key, compared field by field.
pub type SortKey = (i128, i128, i128);

pub open spec fn key_before(a: SortKey, b: SortKey) -> bool {
    a.0 < b.0 || (a.0 == b.0 && (a.1 < b.1 || (a.1 == b.1 && a.2 < b.2)))
}

/// Record `i` comes before record `j`: by key, and by position where the keys
/// are equal.
pub open spec fn precedes(keys: Seq<SortKey>, i: int, j: int) -> bool {
    key_before(keys[i], keys[j]) || (keys[i] == keys[j] && i < j)
}

/// Every index of `r` comes before every later one.
pub open spec fn sorted_by(keys: Seq<SortKey>, r: Seq<usize>) -> bool {
    forall|a: int, b: int| 0 <= a < b < r.len() ==> precedes(keys, r[a] as int, r[b] as int)
}

fn key_before_exec(a: SortKey, b: SortKey) -> (r: bool)
    ensures
        r == key_before(a, b),
{
    a.0 < b.0 || (a.0 == b.0 && (a.1 < b.1 || (a.1 == b.1 && a.2 < b.2)))
}

fn precedes_exec(keys: &Vec<SortKey>, i: usize, j: usize) -> (r: bool)
    requires
        i < keys.len(),
        j < keys.len(),
    ensures
        r == precedes(keys@, i as int, j as int),
{
    let a = keys[i];
    let b = keys[j];
    key_before_exec(a, b) || (a.0 == b.0 && a.1 == b.1 && a.2 == b.2 && i < j)
}

/// The indices `members` listed in the order of their keys, records with
/// equal keys in the order of their positions.
pub fn order_indices(keys: &Vec<SortKey>, members: &Vec<usize>) -> (r: Vec<usize>)
    requires
        members@.no_duplicates(),
        forall|k: int| 0 <= k < members@.len() ==> #[trigger] members@[k] < keys@.len(),
    ensures
        r@.to_multiset() == members@.to_multiset(),
        sorted_by(keys@, r@),
        r@.len() == members@.len(),
        forall|a: int| 0 <= a < r@.len() ==> #[trigger] r@[a] < keys@.len(),
{
    let mut r: Vec<usize> = Vec::new();
    let mut i: usize = 0;
    while i < members.len()
        invariant
            members@.no_duplicates(),
            forall|k: int| 0 <= k < members@.len() ==> #[trigger] members@[k] < keys@.len(),
            i <= members.len(),
            r@.len() == i,
            r@.to_multiset() == members@.subrange(0, i as int).to_multiset(),
            sorted_by(keys@, r@),
            forall|a: int| 0 <= a < r@.len() ==> #[trigger] r@[a] < keys@.len(),
        decreases members.len() - i,
    {
        let x = members[i];
        assert(members@.subrange(0, i + 1) =~= members@.subrange(0, i as int).push(x));
        assert(!r@.contains(x)) by {
            if r@.contains(x) {
                assert(r@.to_multiset().count(x) > 0);
                assert(members@.subrange(0, i as int).contains(x));
                let k = choose|k: int|
                    0 <= k < i && #[trigger] members@.subrange(0, i as int)[k] == x;
                assert(members@[k] == members@[i as int]);
            }
        }
        let mut p: usize = 0;
        while p < r.len() && !precedes_exec(keys, x, r[p])
            invariant
                x < keys@.len(),
                p <= r@.len(),
                forall|a: int| 0 <= a < r@.len() ==> #[trigger] r@[a] < keys@.len(),
                forall|q: int| 0 <= q < p ==> !precedes(keys@, x as int, #[trigger] r@[q] as int),
            decreases r.len() - p,
        {
            p = p + 1;
        }
        let ghost old_r = r@;
        r.insert(p, x);
        proof {
            old_r.insert_ensures(p as int, x);
            assert forall|a: int, b: int| 0 <= a < b < r@.len() implies precedes(
                keys@,
                r@[a] as int,
                r@[b] as int,
            ) by {
                if b < p {
                } else if b == p {
                    assert(old_r[a] != x);
                    assert(!precedes(keys@, x as int, old_r[a] as int));
                } else if a < p {
                    assert(r@[b] == old_r[b - 1]);
                    if p < old_r.len() {
                        assert(precedes(keys@, x as int, old_r[p as int] as int));
                        if a + 1 < b {
                            assert(precedes(keys@, old_r[a] as int, old_r[b - 1] as int));
                        }
                    }
                    assert(old_r[a] != x);
                    assert(!precedes(keys@, x as int, old_r[a] as int));
                } else if a == p {
                    assert(r@[b] == old_r[b - 1]);
                    assert(precedes(keys@, x as int, old_r[p as int] as int));
                    if p < b - 1 {
                        assert(precedes(keys@, old_r[p as int] as int, old_r[b - 1] as int));
                    }
                } else {
                    assert(r@[a] == old_r[a - 1]);
                    assert(r@[b] == old_r[b - 1]);
                }
            }
            assert forall|a: int| 0 <= a < r@.len() implies #[trigger] r@[a] < keys@.len() by {
                if a < p {
                } else if a > p {
                    assert(r@[a] == old_r[a - 1]);
                }
            }
        }
        i = i + 1;
    }
    assert(members@.subrange(0, members@.len() as int) =~= members@);
    r
}

} // verus!
