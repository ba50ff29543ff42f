//! The records the library reads and writes, and the events it reports.
//! Times are Unix seconds.
use vstd::prelude::*;
use crate::downloads::DownloadStatus;
use crate::numbers::{i32_value, parse_i32};
use crate::text::{chars_of, str_equals};

verus! {

/// A configured feed and its download and retention policy.
#[derive(Debug, Clone)]
pub struct Subscription {
    pub id: i64,
    pub name: String,
    pub rss_url: String,
    pub radio_slug: Option<String>,
    pub automation_name: Option<String>,
    pub check_frequency_minutes: i32,
    pub output_directory: String,
    pub max_items_to_check: i32,
    pub max_episodes: Option<i32>,
    pub filename_format: String,
    pub enabled: bool,
    pub preferred_quality: String,
    pub last_checked_at: Option<i64>,
    pub last_success_at: Option<i64>,
    pub last_error: Option<String>,
    pub total_episodes_found: i32,
    pub total_downloads: i32,
    pub created_at: i64,
    pub updated_at: i64,
}

/// What an operator gives to create or change a subscription.
#[derive(Debug, Clone)]
pub struct CreateSubscriptionData {
    pub name: String,
    pub rss_url: String,
    pub radio_slug: Option<String>,
    pub automation_name: Option<String>,
    pub check_frequency_minutes: i32,
    pub output_directory: String,
    pub max_items_to_check: i32,
    pub preferred_quality: String,
    pub max_episodes: Option<i32>,
    pub filename_format: String,
}

/// One discovered item and its download.
#[derive(Debug, Clone)]
pub struct Episode {
    pub id: i64,
    pub subscription_id: i64,
    pub guid: String,
    pub title: String,
    pub description: Option<String>,
    pub pub_date: Option<i64>,
    pub audio_url: String,
    pub audio_type: Option<String>,
    pub audio_size_bytes: Option<i64>,
    pub duration_seconds: Option<i32>,
    pub image_url: Option<String>,
    pub program_name: Option<String>,
    pub download_status: DownloadStatus,
    pub download_path: Option<String>,
    pub download_progress: i32,
    pub download_started_at: Option<i64>,
    pub download_completed_at: Option<i64>,
    pub download_error: Option<String>,
    pub download_attempts: i32,
    pub discovered_at: i64,
}

/// The stored mirror of a queued download.
#[derive(Debug, Clone)]
pub struct DownloadQueueItem {
    pub id: i64,
    pub episode_id: i64,
    pub priority: i32,
    pub added_at: i64,
}

/// A stored setting.
#[derive(Debug, Clone)]
pub struct Setting {
    pub key: String,
    pub value: String,
    pub updated_at: i64,
}

#[derive(Debug, Clone)]
pub struct DownloadStartedPayload {
    pub episode_id: i64,
    pub subscription_id: i64,
}

#[derive(Debug, Clone)]
pub struct DownloadCompletedPayload {
    pub episode_id: i64,
    pub subscription_id: i64,
    pub file_path: String,
}

#[derive(Debug, Clone)]
pub struct DownloadFailedPayload {
    pub episode_id: i64,
    pub error: String,
}

#[derive(Debug, Clone)]
pub struct EpisodeDiscoveredPayload {
    pub subscription_id: i64,
    pub episode: Episode,
}

#[derive(Debug, Clone)]
pub struct SubscriptionCheckedPayload {
    pub subscription_id: i64,
    pub new_episodes_count: i32,
    pub error: Option<String>,
}

/// What a release check found.
#[derive(Debug, Clone)]
pub struct UpdateInfo {
    pub current_version: String,
    pub latest_version: String,
    pub update_available: bool,
    pub release_url: String,
    pub release_notes: Option<String>,
}

/// How many episodes are in each state.
#[derive(Debug, Clone, Copy)]
pub struct EpisodeStats {
    pub total: i32,
    pub pending: i32,
    pub downloading: i32,
    pub completed: i32,
    pub failed: i32,
}

/// How many of `s` are `st`.
pub open spec fn count_status(s: Seq<DownloadStatus>, st: DownloadStatus) -> int
    decreases s.len(),
{
    if s.len() == 0 {
        0
    } else {
        count_status(s.drop_last(), st) + if s.last() == st {
            1int
        } else {
            0
        }
    }
}

proof fn lemma_count_status_le(s: Seq<DownloadStatus>, st: DownloadStatus)
    ensures
        0 <= count_status(s, st) <= s.len(),
    decreases s.len(),
{
    if s.len() > 0 {
        lemma_count_status_le(s.drop_last(), st);
    }
}

/// Counts the episodes in each state.
pub fn episode_stats(statuses: &Vec<DownloadStatus>) -> (r: EpisodeStats)
    requires
        statuses@.len() <= i32::MAX,
    ensures
        r.total == statuses@.len(),
        r.pending == count_status(statuses@, DownloadStatus::Pending),
        r.downloading == count_status(statuses@, DownloadStatus::Downloading),
        r.completed == count_status(statuses@, DownloadStatus::Completed),
        r.failed == count_status(statuses@, DownloadStatus::Failed),
{
    let mut r = EpisodeStats { total: 0, pending: 0, downloading: 0, completed: 0, failed: 0 };
    let mut i: usize = 0;
    while i < statuses.len()
        invariant
            statuses@.len() <= i32::MAX,
            i <= statuses.len(),
            r.total == i,
            r.pending == count_status(statuses@.subrange(0, i as int), DownloadStatus::Pending),
            r.downloading == count_status(
                statuses@.subrange(0, i as int),
                DownloadStatus::Downloading,
            ),
            r.completed == count_status(statuses@.subrange(0, i as int), DownloadStatus::Completed),
            r.failed == count_status(statuses@.subrange(0, i as int), DownloadStatus::Failed),
        decreases statuses.len() - i,
    {
        let ghost pre = statuses@.subrange(0, i as int);
        assert(statuses@.subrange(0, i + 1).drop_last() =~= pre);
        proof {
            lemma_count_status_le(pre, DownloadStatus::Pending);
            lemma_count_status_le(pre, DownloadStatus::Downloading);
            lemma_count_status_le(pre, DownloadStatus::Completed);
            lemma_count_status_le(pre, DownloadStatus::Failed);
        }
        match statuses[i] {
            DownloadStatus::Pending => r.pending = r.pending + 1,
            DownloadStatus::Downloading => r.downloading = r.downloading + 1,
            DownloadStatus::Completed => r.completed = r.completed + 1,
            DownloadStatus::Failed => r.failed = r.failed + 1,
            DownloadStatus::Paused => {},
        }
        r.total = r.total + 1;
        i = i + 1;
    }
    assert(statuses@.subrange(0, statuses@.len() as int) =~= statuses@);
    r
}

/// A stored setting read as an integer; `default` where it is absent or not
/// an integer.
pub fn setting_int(value: &Option<String>, default: i32) -> (r: i32)
    ensures
        value matches Some(v) ==> (i32_value(v@) matches Some(n) ==> r as int == n),
        value matches Some(v) ==> (i32_value(v@) is None ==> r == default),
        value is None ==> r == default,
{
    match value {
        Some(v) => match parse_i32(&chars_of(v.as_str())) {
            Some(n) => n,
            None => default,
        },
        None => default,
    }
}

/// A stored setting read as a flag: `true` exactly where it reads `true`;
/// `default` where it is absent.
pub fn setting_bool(value: &Option<String>, default: bool) -> (r: bool)
    ensures
        value matches Some(v) ==> r == (v@ == "true"@),
        value is None ==> r == default,
{
    match value {
        Some(v) => str_equals(v.as_str(), "true"),
        None => default,
    }
}

} // verus!
