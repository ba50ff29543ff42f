//! Poll scheduling: which subscriptions are checked on a tick, and what a
//! check records on the subscription.
use vstd::prelude::*;
use crate::ordering::{order_indices, sorted_by, SortKey};

verus! {

broadcast use vstd::seq_lib::group_to_multiset_ensures;

/// How often the scheduler wakes, in seconds.
pub const TICK_SECONDS: u64 = 60;

/// What the scheduler reads of a subscription; times are Unix seconds.
#[derive(Debug, Clone, Copy)]
pub struct ScheduleEntry {
    pub id: i64,
    pub enabled: bool,
    pub check_frequency_minutes: i32,
    pub last_checked_at: Option<i64>,
}

/// A subscription is due at `now`: it is enabled, and it was never checked or
/// its interval has passed since the last check.
pub open spec fn is_due(e: ScheduleEntry, now: i64) -> bool {
    e.enabled && match e.last_checked_at {
        None => true,
        Some(t) => now - t >= e.check_frequency_minutes * 60,
    }
}

/// Stalest first: never checked, then by the time of the last check.
pub open spec fn staleness_key(e: ScheduleEntry) -> SortKey {
    match e.last_checked_at {
        None => (0, 0, 0),
        Some(t) => (1, t as i128, 0),
    }
}

pub open spec fn staleness_keys(es: Seq<ScheduleEntry>) -> Seq<SortKey> {
    es.map_values(|e: ScheduleEntry| staleness_key(e))
}

/// The positions among the first `n` entries that are due, in order.
pub open spec fn due_upto(es: Seq<ScheduleEntry>, now: i64, n: int) -> Seq<usize>
    decreases n,
{
    if n <= 0 {
        Seq::empty()
    } else {
        let r = due_upto(es, now, n - 1);
        if is_due(es[n - 1], now) {
            r.push((n - 1) as usize)
        } else {
            r
        }
    }
}

fn is_due_exec(e: &ScheduleEntry, now: i64) -> (r: bool)
    ensures
        r == is_due(*e, now),
{
    if !e.enabled {
        return false;
    }
    match e.last_checked_at {
        None => true,
        Some(t) => (now as i128) - (t as i128) >= (e.check_frequency_minutes as i128) * 60,
    }
}

fn staleness_key_exec(e: &ScheduleEntry) -> (r: SortKey)
    ensures
        r == staleness_key(*e),
{
    match e.last_checked_at {
        None => (0, 0, 0),
        Some(t) => (1, t as i128, 0),
    }
}

/// The subscriptions to check at `now`: the due ones, stalest first.
pub fn subscriptions_due(entries: &Vec<ScheduleEntry>, now: i64) -> (r: Vec<usize>)
    ensures
        r@.to_multiset() == due_upto(entries@, now, entries@.len() as int).to_multiset(),
        sorted_by(staleness_keys(entries@), r@),
        forall|a: int| 0 <= a < r@.len() ==> #[trigger] r@[a] < entries@.len(),
{
    let n = entries.len();
    let mut keys: Vec<SortKey> = Vec::new();
    let mut members: Vec<usize> = Vec::new();
    let mut i: usize = 0;
    while i < n
        invariant
            n == entries@.len(),
            i <= n,
            keys@.len() == i,
            forall|k: int| 0 <= k < i ==> keys@[k] == #[trigger] staleness_key(entries@[k]),
            members@ == due_upto(entries@, now, i as int),
            forall|a: int| 0 <= a < members@.len() ==> #[trigger] members@[a] < i,
            forall|a: int, b: int| 0 <= a < b < members@.len() ==> members@[a] < members@[b],
        decreases n - i,
    {
        keys.push(staleness_key_exec(&entries[i]));
        if is_due_exec(&entries[i], now) {
            members.push(i);
        }
        i = i + 1;
    }
    assert(keys@ =~= staleness_keys(entries@));
    order_indices(&keys, &members)
}

/// What a check leaves on a subscription; times are Unix seconds.
#[derive(Debug, Clone)]
pub struct CheckRecord {
    pub last_checked_at: Option<i64>,
    pub last_success_at: Option<i64>,
    pub last_error: Option<String>,
    pub total_episodes_found: i32,
    pub total_downloads: i32,
}

impl CheckRecord {
    /// Records a check made at `now`: a success clears the error and adds the
    /// new episodes; a failure records its error and leaves the counters. Either
    /// way the time of the last check moves to `now`.
    pub fn record_check(&mut self, now: i64, new_episodes: i32, error: Option<String>)
        requires
            error is None ==> i32::MIN <= old(self).total_episodes_found + new_episodes
                <= i32::MAX,
        ensures
            final(self).last_checked_at == Some(now),
            final(self).total_downloads == old(self).total_downloads,
            error is None ==> {
                &&& final(self).last_success_at == Some(now)
                &&& final(self).last_error is None
                &&& final(self).total_episodes_found == old(self).total_episodes_found
                    + new_episodes
            },
            error matches Some(e) ==> {
                &&& final(self).last_success_at == old(self).last_success_at
                &&& final(self).last_error == Some(e)
                &&& final(self).total_episodes_found == old(self).total_episodes_found
            },
    {
        self.last_checked_at = Some(now);
        match error {
            None => {
                self.last_success_at = Some(now);
                self.last_error = None;
                self.total_episodes_found = self.total_episodes_found + new_episodes;
            },
            Some(e) => {
                self.last_error = Some(e);
            },
        }
    }

    /// Counts one more completed download.
    pub fn increment_download_count(&mut self)
        requires
            old(self).total_downloads < i32::MAX,
        ensures
            final(self).total_downloads == old(self).total_downloads + 1,
            final(self).total_episodes_found == old(self).total_episodes_found,
            final(self).last_checked_at == old(self).last_checked_at,
            final(self).last_success_at == old(self).last_success_at,
            final(self).last_error == old(self).last_error,
    {
        self.total_downloads = self.total_downloads + 1;
    }
}

} // verus!
