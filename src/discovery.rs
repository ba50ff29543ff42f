//! Discovery: which items of a fetched feed become new episodes.
use vstd::prelude::*;
use crate::feed::ParsedItem;
use crate::naming::{is_taken, names_of};
use crate::ordering::{order_indices, precedes, sorted_by, SortKey};
use crate::text::{chars_of, same_chars};

verus! {

broadcast use vstd::seq_lib::group_to_multiset_ensures;

/// Newest first: dated items by date, latest first, then undated ones.
pub open spec fn discovery_key(p: ParsedItem) -> SortKey {
    match p.pub_date {
        Some(t) => (0, (-(t as int)) as i128, 0),
        None => (1, 0, 0),
    }
}

pub open spec fn discovery_keys(items: Seq<ParsedItem>) -> Seq<SortKey> {
    items.map_values(|p: ParsedItem| discovery_key(p))
}

/// How many items of the feed are inspected: the first `max_items_to_check`
/// (all of them where that is negative, as a cast to `usize` makes it).
pub open spec fn window_len(max_items_to_check: i32, n: int) -> int {
    if max_items_to_check < 0 || max_items_to_check as int >= n {
        n
    } else {
        max_items_to_check as int
    }
}

/// The inspected items among the first `n` whose guid is not yet known, in
/// feed order.
pub open spec fn fresh_upto(items: Seq<ParsedItem>, known: Seq<Seq<char>>, n: int) -> Seq<usize>
    decreases n,
{
    if n <= 0 {
        Seq::empty()
    } else {
        let r = fresh_upto(items, known, n - 1);
        if known.contains(items[n - 1].guid@) {
            r
        } else {
            r.push((n - 1) as usize)
        }
    }
}

/// How many new episodes a subscription may still take: `None` where it has
/// no cap, else the cap less the episodes it has, and never below 0.
pub open spec fn capacity(max_episodes: Option<i32>, current_total: u64) -> Option<int> {
    match max_episodes {
        None => None,
        Some(m) => if m - current_total <= 0 {
            Some(0)
        } else {
            Some(m - current_total)
        },
    }
}

/// The first `cap` of `s` (all of `s` where there is no cap).
pub open spec fn take_cap(s: Seq<usize>, cap: Option<int>) -> Seq<usize> {
    match cap {
        Some(c) => if c < s.len() {
            s.subrange(0, c)
        } else {
            s
        },
        None => s,
    }
}

pub open spec fn guids_of(items: Seq<ParsedItem>, s: Seq<usize>) -> Seq<Seq<char>> {
    s.map_values(|i: usize| items[i as int].guid@)
}

/// The items of `s`, in order, that have an enclosure and whose guid no
/// earlier accepted item has.
pub open spec fn accepted(items: Seq<ParsedItem>, s: Seq<usize>) -> Seq<usize>
    decreases s.len(),
{
    if s.len() == 0 {
        Seq::empty()
    } else {
        let a = accepted(items, s.drop_last());
        let x = s.last();
        if items[x as int].enclosure is Some && !guids_of(items, a).contains(items[x as int].guid@) {
            a.push(x)
        } else {
            a
        }
    }
}

/// The result of a discovery pass: the new items newest first, and those of
/// them that become episodes, in that order.
pub struct DiscoveryPlan {
    pub ordered: Vec<usize>,
    pub selected: Vec<usize>,
}

/// How many more episodes a subscription may take; `usize::MAX` where it has
/// no cap.
pub fn available_slots(max_episodes: Option<i32>, current_total: u64) -> (r: usize)
    ensures
        capacity(max_episodes, current_total) matches Some(c) ==> r as int == c,
        capacity(max_episodes, current_total) is None ==> r == usize::MAX,
{
    match max_episodes {
        None => usize::MAX,
        Some(m) => {
            let slots: i128 = m as i128 - current_total as i128;
            if slots <= 0 {
                0
            } else {
                slots as usize
            }
        },
    }
}

fn key_of(p: &ParsedItem) -> (r: SortKey)
    ensures
        r == discovery_key(*p),
{
    match p.pub_date {
        Some(t) => (0, -(t as i128), 0),
        None => (1, 0, 0),
    }
}

fn guid_among(items: &Vec<ParsedItem>, chosen: &Vec<usize>, guid: &Vec<char>) -> (r: bool)
    requires
        forall|k: int| 0 <= k < chosen@.len() ==> #[trigger] chosen@[k] < items@.len(),
    ensures
        r == guids_of(items@, chosen@).contains(guid@),
{
    let mut k: usize = 0;
    while k < chosen.len()
        invariant
            forall|k: int| 0 <= k < chosen@.len() ==> #[trigger] chosen@[k] < items@.len(),
            k <= chosen.len(),
            forall|j: int| 0 <= j < k ==> items@[chosen@[j] as int].guid@ != guid@,
        decreases chosen.len() - k,
    {
        let g = chars_of(items[chosen[k]].guid.as_str());
        if same_chars(&g, guid) {
            assert(guids_of(items@, chosen@)[k as int] == guid@);
            return true;
        }
        k = k + 1;
    }
    assert forall|j: int| 0 <= j < guids_of(items@, chosen@).len() implies guids_of(
        items@,
        chosen@,
    )[j] != guid@ by {
        assert(guids_of(items@, chosen@)[j] == items@[chosen@[j] as int].guid@);
    }
    false
}

/// Plans a discovery pass over a fetched feed: the inspected items whose
/// guid is not among `known_guids`, newest first, undated last; of these the
/// first `available_slots` are taken, and each taken item with an enclosure
/// and a guid not taken before becomes an episode.
pub fn plan_discovery(
    items: &Vec<ParsedItem>,
    max_items_to_check: i32,
    known_guids: &Vec<String>,
    max_episodes: Option<i32>,
    current_total: u64,
) -> (r: DiscoveryPlan)
    ensures
        r.ordered@.to_multiset() == fresh_upto(
            items@,
            names_of(known_guids@),
            window_len(max_items_to_check, items@.len() as int),
        ).to_multiset(),
        sorted_by(discovery_keys(items@), r.ordered@),
        forall|k: int| 0 <= k < r.ordered@.len() ==> #[trigger] r.ordered@[k] < items@.len(),
        r.selected@ == accepted(
            items@,
            take_cap(r.ordered@, capacity(max_episodes, current_total)),
        ),
{
    let n = items.len();
    let w: usize = if max_items_to_check < 0 || max_items_to_check as usize >= n {
        n
    } else {
        max_items_to_check as usize
    };
    let ghost known = names_of(known_guids@);
    let mut keys: Vec<SortKey> = Vec::new();
    let mut members: Vec<usize> = Vec::new();
    let mut i: usize = 0;
    while i < w
        invariant
            w <= n,
            n == items@.len(),
            known == names_of(known_guids@),
            i <= w,
            keys@.len() == i,
            forall|k: int| 0 <= k < i ==> keys@[k] == #[trigger] discovery_key(items@[k]),
            members@ == fresh_upto(items@, known, i as int),
            forall|a: int| 0 <= a < members@.len() ==> #[trigger] members@[a] < i,
            forall|a: int, b: int| 0 <= a < b < members@.len() ==> members@[a] < members@[b],
        decreases w - i,
    {
        keys.push(key_of(&items[i]));
        let g = chars_of(items[i].guid.as_str());
        if !is_taken(&g, known_guids) {
            members.push(i);
        }
        i = i + 1;
    }
    while i < n
        invariant
            w <= i <= n,
            n == items@.len(),
            keys@.len() == i,
            forall|k: int| 0 <= k < i ==> keys@[k] == #[trigger] discovery_key(items@[k]),
        decreases n - i,
    {
        keys.push(key_of(&items[i]));
        i = i + 1;
    }
    assert(keys@ =~= discovery_keys(items@));
    assert(w as int == window_len(max_items_to_check, items@.len() as int));
    let ordered = order_indices(&keys, &members);
    let slots = available_slots(max_episodes, current_total);
    let limit = if slots < ordered.len() {
        slots
    } else {
        ordered.len()
    };
    let ghost taken = take_cap(ordered@, capacity(max_episodes, current_total));
    assert(taken =~= ordered@.subrange(0, limit as int));
    let mut selected: Vec<usize> = Vec::new();
    let mut j: usize = 0;
    while j < limit
        invariant
            limit <= ordered@.len(),
            taken == ordered@.subrange(0, limit as int),
            forall|k: int| 0 <= k < ordered@.len() ==> #[trigger] ordered@[k] < items@.len(),
            j <= limit,
            selected@ == accepted(items@, ordered@.subrange(0, j as int)),
            forall|k: int| 0 <= k < selected@.len() ==> #[trigger] selected@[k] < items@.len(),
        decreases limit - j,
    {
        let x = ordered[j];
        assert(ordered@.subrange(0, j + 1).drop_last() =~= ordered@.subrange(0, j as int));
        let g = chars_of(items[x].guid.as_str());
        if items[x].enclosure.is_some() && !guid_among(items, &selected, &g) {
            selected.push(x);
        }
        j = j + 1;
    }
    proof {
        lemma_accepted_within(items@, taken);
    }
    DiscoveryPlan { ordered, selected }
}

proof fn lemma_accepted_within(items: Seq<ParsedItem>, s: Seq<usize>)
    ensures
        forall|k: int|
            0 <= k < accepted(items, s).len() ==> s.contains(#[trigger] accepted(items, s)[k]),
    decreases s.len(),
{
    if s.len() > 0 {
        lemma_accepted_within(items, s.drop_last());
        let a = accepted(items, s.drop_last());
        assert forall|k: int| 0 <= k < accepted(items, s).len() implies s.contains(
            #[trigger] accepted(items, s)[k],
        ) by {
            if k < a.len() {
                assert(s.drop_last().contains(a[k]));
                let j = choose|j: int| 0 <= j < s.drop_last().len() && s.drop_last()[j] == a[k];
                assert(s[j] == a[k]);
            } else {
                assert(s[s.len() - 1] == s.last());
            }
        }
    }
}

/// No duplicate episodes: of any list of items whose guids are not yet known,
/// the accepted ones have pairwise different guids, none of them known, and
/// each has an enclosure.
pub proof fn lemma_no_duplicate_guids(
    items: Seq<ParsedItem>,
    s: Seq<usize>,
    known: Seq<Seq<char>>,
)
    requires
        forall|k: int| 0 <= k < s.len() ==> !known.contains(items[#[trigger] s[k] as int].guid@),
    ensures
        forall|a: int, b: int|
            0 <= a < b < accepted(items, s).len() ==> items[accepted(items, s)[a] as int].guid@
                != items[accepted(items, s)[b] as int].guid@,
        forall|a: int|
            0 <= a < accepted(items, s).len() ==> !known.contains(
                items[#[trigger] accepted(items, s)[a] as int].guid@,
            ),
        forall|a: int|
            0 <= a < accepted(items, s).len() ==> items[#[trigger] accepted(
                items,
                s,
            )[a] as int].enclosure is Some,
    decreases s.len(),
{
    if s.len() > 0 {
        let t = s.drop_last();
        assert forall|k: int| 0 <= k < t.len() implies !known.contains(
            items[#[trigger] t[k] as int].guid@,
        ) by {
            assert(t[k] == s[k]);
        }
        lemma_no_duplicate_guids(items, t, known);
        let a = accepted(items, t);
        let x = s.last();
        assert(s[s.len() - 1] == x);
        if items[x as int].enclosure is Some && !guids_of(items, a).contains(items[x as int].guid@) {
            let b = a.push(x);
            assert forall|i: int, j: int| 0 <= i < j < b.len() implies items[b[i] as int].guid@
                != items[b[j] as int].guid@ by {
                if j == a.len() {
                    assert(guids_of(items, a)[i] == items[a[i] as int].guid@);
                }
            }
        }
    }
}

/// Where no item of `s` is repeated, each has an enclosure and their guids
/// differ, every one of them is accepted.
proof fn lemma_accept_all(items: Seq<ParsedItem>, s: Seq<usize>)
    requires
        forall|k: int| 0 <= k < s.len() ==> items[#[trigger] s[k] as int].enclosure is Some,
        forall|a: int, b: int|
            0 <= a < b < s.len() ==> items[s[a] as int].guid@ != items[s[b] as int].guid@,
    ensures
        accepted(items, s) == s,
    decreases s.len(),
{
    if s.len() > 0 {
        let t = s.drop_last();
        assert forall|k: int| 0 <= k < t.len() implies items[#[trigger] t[k] as int].enclosure is Some by {
            assert(t[k] == s[k]);
        }
        assert forall|a: int, b: int| 0 <= a < b < t.len() implies items[t[a] as int].guid@
            != items[t[b] as int].guid@ by {
            assert(t[a] == s[a] && t[b] == s[b]);
        }
        lemma_accept_all(items, t);
        assert(items[s.last() as int].enclosure is Some) by {
            assert(s[s.len() - 1] == s.last());
        }
        assert(!guids_of(items, t).contains(items[s.last() as int].guid@)) by {
            if guids_of(items, t).contains(items[s.last() as int].guid@) {
                let j = choose|j: int|
                    0 <= j < guids_of(items, t).len() && guids_of(items, t)[j] == items[s.last() as int].guid@;
                assert(guids_of(items, t)[j] == items[t[j] as int].guid@);
                assert(t[j] == s[j]);
                assert(s[s.len() - 1] == s.last());
            }
        }
        assert(t.push(s.last()) =~= s);
    }
}

/// A cap of `K` episodes on a subscription that has none yet, and more than
/// `K` new items, all with enclosures and different guids: exactly `K` of
/// them become episodes, and each comes before (is newer than) every item
/// left out.
pub proof fn lemma_cap_takes_newest(
    items: Seq<ParsedItem>,
    ordered: Seq<usize>,
    k: i32,
)
    requires
        k >= 0,
        ordered.len() > k,
        sorted_by(discovery_keys(items), ordered),
        forall|a: int| 0 <= a < ordered.len() ==> #[trigger] ordered[a] < items.len(),
        forall|a: int|
            0 <= a < ordered.len() ==> items[#[trigger] ordered[a] as int].enclosure is Some,
        forall|a: int, b: int|
            0 <= a < b < ordered.len() ==> items[ordered[a] as int].guid@ != items[ordered[b] as int].guid@,
    ensures
        accepted(items, take_cap(ordered, capacity(Some(k), 0))).len() == k,
        forall|a: int, b: int|
            0 <= a < k <= b < ordered.len() ==> precedes(
                discovery_keys(items),
                accepted(items, take_cap(ordered, capacity(Some(k), 0)))[a] as int,
                ordered[b] as int,
            ),
{
    let t = take_cap(ordered, capacity(Some(k), 0));
    assert(t =~= ordered.subrange(0, k as int));
    assert forall|a: int| 0 <= a < t.len() implies items[#[trigger] t[a] as int].enclosure is Some by {
        assert(t[a] == ordered[a]);
    }
    assert forall|a: int, b: int| 0 <= a < b < t.len() implies items[t[a] as int].guid@
        != items[t[b] as int].guid@ by {
        assert(t[a] == ordered[a] && t[b] == ordered[b]);
    }
    lemma_accept_all(items, t);
}

proof fn lemma_fresh_not_known(items: Seq<ParsedItem>, known: Seq<Seq<char>>, n: int)
    requires
        n <= items.len() <= usize::MAX,
    ensures
        forall|k: int|
            0 <= k < fresh_upto(items, known, n).len() ==> {
                &&& (#[trigger] fresh_upto(items, known, n)[k]) < items.len()
                &&& !known.contains(items[fresh_upto(items, known, n)[k] as int].guid@)
            },
    decreases n,
{
    if n > 0 {
        lemma_fresh_not_known(items, known, n - 1);
    }
}

/// A discovery pass never creates a duplicate episode: of the new items,
/// listed in any order and cut at any capacity, those that become episodes
/// have pairwise different guids, none of them already known, and each has
/// an enclosure.
pub proof fn lemma_plan_has_no_duplicates(
    items: Seq<ParsedItem>,
    max_items_to_check: i32,
    known: Seq<Seq<char>>,
    ordered: Seq<usize>,
    cap: Option<int>,
)
    requires
        items.len() <= usize::MAX,
        cap matches Some(c) ==> c >= 0,
        ordered.to_multiset() == fresh_upto(
            items,
            known,
            window_len(max_items_to_check, items.len() as int),
        ).to_multiset(),
    ensures
        ({
            let chosen = accepted(items, take_cap(ordered, cap));
            &&& forall|a: int, b: int|
                0 <= a < b < chosen.len() ==> items[chosen[a] as int].guid@ != items[chosen[b] as int].guid@
            &&& forall|a: int| 0 <= a < chosen.len() ==> !known.contains(items[#[trigger] chosen[a] as int].guid@)
        }),
{
    let n = window_len(max_items_to_check, items.len() as int);
    let fresh = fresh_upto(items, known, n);
    lemma_fresh_not_known(items, known, n);
    let t = take_cap(ordered, cap);
    assert forall|k: int| 0 <= k < t.len() implies !known.contains(items[#[trigger] t[k] as int].guid@) by {
        let x = t[k];
        assert(ordered[k] == x);
        assert(ordered.contains(x));
        assert(ordered.to_multiset().count(x) > 0);
        assert(fresh.contains(x));
        let i = choose|i: int| 0 <= i < fresh.len() && fresh[i] == x;
        assert(!known.contains(items[fresh[i] as int].guid@));
    }
    lemma_no_duplicate_guids(items, t, known);
}

proof fn lemma_fresh_all(items: Seq<ParsedItem>, known: Seq<Seq<char>>, n: int)
    requires
        0 <= n <= items.len() <= usize::MAX,
        forall|i: int| 0 <= i < n ==> !known.contains(#[trigger] items[i].guid@),
    ensures
        fresh_upto(items, known, n).len() == n,
        forall|k: int| 0 <= k < n ==> #[trigger] fresh_upto(items, known, n)[k] == k,
    decreases n,
{
    if n > 0 {
        lemma_fresh_all(items, known, n - 1);
        assert(!known.contains(items[n - 1].guid@));
    }
}

/// A cap of `K` on a subscription that has no episodes yet, and a feed whose
/// inspected items are more than `K`, all new, with enclosures and different
/// guids: the plan that `plan_discovery` states makes exactly `K` of them
/// episodes, each newer than (or as new as, and before in the feed) every
/// new item left out.
pub proof fn lemma_plan_takes_newest_k(
    items: Seq<ParsedItem>,
    max_items_to_check: i32,
    known: Seq<Seq<char>>,
    ordered: Seq<usize>,
    k: i32,
)
    requires
        items.len() <= usize::MAX,
        k >= 0,
        window_len(max_items_to_check, items.len() as int) > k,
        forall|i: int|
            0 <= i < window_len(max_items_to_check, items.len() as int) ==> !known.contains(
                #[trigger] items[i].guid@,
            ) && items[i].enclosure is Some,
        forall|i: int, j: int|
            0 <= i < j < window_len(max_items_to_check, items.len() as int) ==> items[i].guid@
                != items[j].guid@,
        ordered.to_multiset() == fresh_upto(
            items,
            known,
            window_len(max_items_to_check, items.len() as int),
        ).to_multiset(),
        sorted_by(discovery_keys(items), ordered),
    ensures
        accepted(items, take_cap(ordered, capacity(Some(k), 0))).len() == k,
        forall|a: int, b: int|
            0 <= a < k <= b < ordered.len() ==> precedes(
                discovery_keys(items),
                accepted(items, take_cap(ordered, capacity(Some(k), 0)))[a] as int,
                ordered[b] as int,
            ),
{
    let n = window_len(max_items_to_check, items.len() as int);
    let fresh = fresh_upto(items, known, n);
    lemma_fresh_all(items, known, n);
    assert(ordered.len() == fresh.len()) by {
        assert(ordered.to_multiset().len() == fresh.to_multiset().len());
    }
    assert forall|a: int| 0 <= a < ordered.len() implies #[trigger] ordered[a] < n by {
        assert(ordered.contains(ordered[a]));
        assert(ordered.to_multiset().count(ordered[a]) > 0);
        assert(fresh.contains(ordered[a]));
        let j = choose|j: int| 0 <= j < fresh.len() && fresh[j] == ordered[a];
        assert(fresh[j] == j);
    }
    assert forall|a: int, b: int| 0 <= a < b < ordered.len() implies items[ordered[a] as int].guid@
        != items[ordered[b] as int].guid@ by {
        assert(precedes(discovery_keys(items), ordered[a] as int, ordered[b] as int));
        assert(ordered[a] != ordered[b]);
        assert(ordered[a] < n && ordered[b] < n);
        if ordered[a] < ordered[b] {
        } else {
        }
    }
    assert forall|a: int| 0 <= a < ordered.len() implies items[#[trigger] ordered[a] as int].enclosure is Some by {
        assert(ordered[a] < n);
    }
    lemma_cap_takes_newest(items, ordered, k);
}

} // verus!
