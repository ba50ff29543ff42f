//! Downloads: the state of each episode's download, the pool that admits at
//! most `N` downloads at a time, and the progress of a running download.
use vstd::prelude::*;
use vstd::multiset::Multiset;
use crate::text::str_equals;

verus! {

broadcast use vstd::seq_lib::group_to_multiset_ensures;

/// Where an episode's download stands.
#[derive(Debug, Clone, Copy, PartialEq, Eq, Structural)]
pub enum DownloadStatus {
    Pending,
    Downloading,
    Completed,
    Failed,
    Paused,
}

pub open spec fn status_text(s: DownloadStatus) -> Seq<char> {
    match s {
        DownloadStatus::Pending => "pending"@,
        DownloadStatus::Downloading => "downloading"@,
        DownloadStatus::Completed => "completed"@,
        DownloadStatus::Failed => "failed"@,
        DownloadStatus::Paused => "paused"@,
    }
}

impl DownloadStatus {
    /// The name under which the status is stored.
    pub fn as_text(&self) -> (r: String)
        ensures
            r@ == status_text(*self),
    {
        match self {
            DownloadStatus::Pending => "pending".to_owned(),
            DownloadStatus::Downloading => "downloading".to_owned(),
            DownloadStatus::Completed => "completed".to_owned(),
            DownloadStatus::Failed => "failed".to_owned(),
            DownloadStatus::Paused => "paused".to_owned(),
        }
    }

    /// The status stored under `s`, if any.
    pub fn from_text(s: &str) -> (r: Option<DownloadStatus>)
        ensures
            r matches Some(st) ==> status_text(st) == s@,
            r is None ==> forall|st: DownloadStatus| status_text(st) != s@,
    {
        if str_equals(s, "pending") {
            Some(DownloadStatus::Pending)
        } else if str_equals(s, "downloading") {
            Some(DownloadStatus::Downloading)
        } else if str_equals(s, "completed") {
            Some(DownloadStatus::Completed)
        } else if str_equals(s, "failed") {
            Some(DownloadStatus::Failed)
        } else if str_equals(s, "paused") {
            Some(DownloadStatus::Paused)
        } else {
            assert forall|st: DownloadStatus| status_text(st) != s@ by {
                match st {
                    DownloadStatus::Pending => {},
                    DownloadStatus::Downloading => {},
                    DownloadStatus::Completed => {},
                    DownloadStatus::Failed => {},
                    DownloadStatus::Paused => {},
                }
            }
            None
        }
    }
}

/// The download fields of an episode record; times are Unix seconds.
#[derive(Debug, Clone)]
pub struct EpisodeDownload {
    pub status: DownloadStatus,
    pub progress: i32,
    pub path: Option<String>,
    pub error: Option<String>,
    pub attempts: i32,
    pub started_at: Option<i64>,
    pub completed_at: Option<i64>,
}

/// A completed episode has the path it was written to.
pub open spec fn download_wf(e: EpisodeDownload) -> bool {
    e.status == DownloadStatus::Completed ==> e.path is Some
}

impl EpisodeDownload {
    /// A newly discovered episode: pending, never tried.
    pub fn new_pending() -> (r: EpisodeDownload)
        ensures
            r.status == DownloadStatus::Pending,
            r.progress == 0,
            r.path is None,
            r.error is None,
            r.attempts == 0,
            r.started_at is None,
            r.completed_at is None,
            download_wf(r),
    {
        EpisodeDownload {
            status: DownloadStatus::Pending,
            progress: 0,
            path: None,
            error: None,
            attempts: 0,
            started_at: None,
            completed_at: None,
        }
    }

    /// A download starts at `now`: one more attempt.
    pub fn mark_downloading(&mut self, now: i64)
        requires
            old(self).attempts < i32::MAX,
        ensures
            final(self).status == DownloadStatus::Downloading,
            final(self).started_at == Some(now),
            final(self).attempts == old(self).attempts + 1,
            final(self).progress == old(self).progress,
            final(self).path == old(self).path,
            final(self).error == old(self).error,
            final(self).completed_at == old(self).completed_at,
            download_wf(*final(self)),
    {
        self.status = DownloadStatus::Downloading;
        self.started_at = Some(now);
        self.attempts = self.attempts + 1;
    }

    /// The progress of the running download, in percent.
    pub fn update_progress(&mut self, progress: i32)
        ensures
            final(self).progress == progress,
            final(self).status == old(self).status,
            final(self).path == old(self).path,
            final(self).error == old(self).error,
            final(self).attempts == old(self).attempts,
            final(self).started_at == old(self).started_at,
            final(self).completed_at == old(self).completed_at,
            download_wf(*old(self)) ==> download_wf(*final(self)),
    {
        self.progress = progress;
    }

    /// The file was written to `path` at `now`.
    pub fn mark_completed(&mut self, path: String, now: i64)
        ensures
            final(self).status == DownloadStatus::Completed,
            final(self).path == Some(path),
            final(self).progress == 100,
            final(self).completed_at == Some(now),
            final(self).error is None,
            final(self).attempts == old(self).attempts,
            final(self).started_at == old(self).started_at,
            download_wf(*final(self)),
    {
        self.status = DownloadStatus::Completed;
        self.path = Some(path);
        self.progress = 100;
        self.completed_at = Some(now);
        self.error = None;
    }

    /// The download failed with `error`.
    pub fn mark_failed(&mut self, error: String)
        ensures
            final(self).status == DownloadStatus::Failed,
            final(self).error == Some(error),
            final(self).progress == old(self).progress,
            final(self).path == old(self).path,
            final(self).attempts == old(self).attempts,
            final(self).started_at == old(self).started_at,
            final(self).completed_at == old(self).completed_at,
            download_wf(*final(self)),
    {
        self.status = DownloadStatus::Failed;
        self.error = Some(error);
    }

    /// Back to pending, for another attempt.
    pub fn reset_for_retry(&mut self)
        ensures
            final(self).status == DownloadStatus::Pending,
            final(self).progress == 0,
            final(self).error is None,
            final(self).path == old(self).path,
            final(self).attempts == old(self).attempts,
            final(self).started_at == old(self).started_at,
            final(self).completed_at == old(self).completed_at,
            download_wf(*final(self)),
    {
        self.status = DownloadStatus::Pending;
        self.progress = 0;
        self.error = None;
    }

    /// Forgets where and when the file was written.
    pub fn clear_download_info(&mut self)
        requires
            old(self).status != DownloadStatus::Completed,
        ensures
            final(self).path is None,
            final(self).progress == 0,
            final(self).started_at is None,
            final(self).completed_at is None,
            final(self).error is None,
            final(self).status == old(self).status,
            final(self).attempts == old(self).attempts,
            download_wf(*final(self)),
    {
        self.path = None;
        self.progress = 0;
        self.started_at = None;
        self.completed_at = None;
        self.error = None;
    }

    /// The subscription was disabled: a pending or running download is
    /// paused, with a note of why; any other state is kept.
    pub fn cancel_for_disabled(&mut self)
        ensures
            (old(self).status == DownloadStatus::Pending || old(self).status
                == DownloadStatus::Downloading) ==> {
                &&& final(self).status == DownloadStatus::Paused
                &&& (final(self).error matches Some(e) && e@
                    == "Cancelled: subscription disabled"@)
            },
            !(old(self).status == DownloadStatus::Pending || old(self).status
                == DownloadStatus::Downloading) ==> final(self).status == old(self).status
                && final(self).error == old(self).error,
            final(self).path == old(self).path,
            final(self).progress == old(self).progress,
            final(self).attempts == old(self).attempts,
            download_wf(*old(self)) ==> download_wf(*final(self)),
    {
        if self.status == DownloadStatus::Pending || self.status == DownloadStatus::Downloading {
            self.status = DownloadStatus::Paused;
            self.error = Some("Cancelled: subscription disabled".to_owned());
        }
    }

    /// Checks a completed episode against the disk: `file_exists` says whether
    /// its file is there. A completed episode whose file is gone, or that has
    /// no path, goes back to pending (its download fields cleared where it had
    /// a path) and `false` is returned; otherwise nothing changes and `true`
    /// is returned.
    pub fn verify_file(&mut self, file_exists: bool) -> (r: bool)
        ensures
            old(self).status != DownloadStatus::Completed ==> r && *final(self) == *old(self),
            old(self).status == DownloadStatus::Completed && old(self).path is Some && file_exists
                ==> r && *final(self) == *old(self),
            old(self).status == DownloadStatus::Completed && old(self).path is Some
                && !file_exists ==> {
                &&& !r
                &&& final(self).status == DownloadStatus::Pending
                &&& final(self).path is None
                &&& final(self).progress == 0
                &&& final(self).error is None
                &&& final(self).started_at is None
                &&& final(self).completed_at is None
            },
            old(self).status == DownloadStatus::Completed && old(self).path is None ==> !r
                && final(self).status == DownloadStatus::Pending && final(self).path is None
                && final(self).progress == old(self).progress && final(self).error == old(
                self,
            ).error && final(self).attempts == old(self).attempts && final(self).started_at
                == old(self).started_at && final(self).completed_at == old(self).completed_at,
            old(self).status == DownloadStatus::Completed && old(self).path is Some
                && !file_exists ==> final(self).attempts == old(self).attempts,
            download_wf(*final(self)),
    {
        if self.status != DownloadStatus::Completed {
            return true;
        }
        if self.path.is_some() {
            if file_exists {
                return true;
            }
            self.status = DownloadStatus::Pending;
            self.clear_download_info();
            false
        } else {
            self.status = DownloadStatus::Pending;
            false
        }
    }
}

/// How a download ended.
#[derive(Debug, Clone)]
pub enum DownloadOutcome {
    Finished,
    Cancelled,
    Failed(String),
}

/// The status a download leaves its episode in.
pub open spec fn settled_status(o: DownloadOutcome) -> DownloadStatus {
    match o {
        DownloadOutcome::Finished => DownloadStatus::Completed,
        _ => DownloadStatus::Failed,
    }
}

/// Records how a download to `path` ended at `now`: completed with its path
/// where it finished, failed with the error (or the cancellation) otherwise.
pub fn settle_download(episode: &mut EpisodeDownload, outcome: DownloadOutcome, path: String, now: i64)
    ensures
        final(episode).status == settled_status(outcome),
        outcome is Finished ==> final(episode).path == Some(path) && final(episode).progress
            == 100 && final(episode).error is None && final(episode).completed_at == Some(now),
        !(outcome is Finished) ==> final(episode).path == old(episode).path
            && final(episode).progress == old(episode).progress && final(episode).completed_at
            == old(episode).completed_at,
        final(episode).attempts == old(episode).attempts,
        final(episode).started_at == old(episode).started_at,
        outcome is Cancelled ==> (final(episode).error matches Some(e) && e@
            == "Download cancelled"@),
        outcome matches DownloadOutcome::Failed(e) ==> final(episode).error == Some(e),
        download_wf(*final(episode)),
{
    match outcome {
        DownloadOutcome::Finished => episode.mark_completed(path, now),
        DownloadOutcome::Cancelled => episode.mark_failed("Download cancelled".to_owned()),
        DownloadOutcome::Failed(e) => episode.mark_failed(e),
    }
}

/// A cancelled download never leaves its episode completed.
pub proof fn lemma_cancel_never_completes(o: DownloadOutcome)
    requires
        o is Cancelled,
    ensures
        settled_status(o) != DownloadStatus::Completed,
{
}

/// A request to download one episode to a path.
#[derive(Debug, Clone)]
pub struct DownloadRequest {
    pub episode_id: i64,
    pub subscription_id: i64,
    pub url: String,
    pub output_path: String,
}

/// The pool seen as numbers: its limit, the episodes being downloaded and
/// the episodes waiting, in arrival order.
pub struct PoolView {
    pub max: nat,
    pub active: Multiset<i64>,
    pub waiting: Seq<i64>,
}

/// Admits at most `max_concurrent` downloads at a time; the others wait in
/// arrival order.
pub struct DownloadManager {
    max_concurrent: usize,
    active: Vec<i64>,
    waiting: Vec<DownloadRequest>,
}

pub open spec fn ids_of(rs: Seq<DownloadRequest>) -> Seq<i64> {
    rs.map_values(|r: DownloadRequest| r.episode_id)
}

impl View for DownloadManager {
    type V = PoolView;

    closed spec fn view(&self) -> PoolView {
        PoolView {
            max: self.max_concurrent as nat,
            active: self.active@.to_multiset(),
            waiting: ids_of(self.waiting@),
        }
    }
}

/// Never more than the limit running, and nothing waits while a slot is free.
pub open spec fn pool_wf(v: PoolView) -> bool {
    &&& v.active.len() <= v.max
    &&& v.waiting.len() > 0 ==> v.active.len() == v.max
}

/// The pool after a request for episode `id` arrives.
pub open spec fn after_submit(v: PoolView, id: i64) -> PoolView {
    if v.active.len() < v.max {
        PoolView { active: v.active.insert(id), ..v }
    } else {
        PoolView { waiting: v.waiting.push(id), ..v }
    }
}

/// The pool after the download of episode `id` ends: its slot is freed and
/// the first waiting request, if any, takes it.
pub open spec fn after_finish(v: PoolView, id: i64) -> PoolView {
    let freed = if v.active.count(id) > 0 {
        v.active.remove(id)
    } else {
        v.active
    };
    if v.waiting.len() > 0 && freed.len() < v.max {
        PoolView { max: v.max, active: freed.insert(v.waiting[0]), waiting: v.waiting.drop_first() }
    } else {
        PoolView { max: v.max, active: freed, waiting: v.waiting }
    }
}

impl DownloadManager {
    /// An empty pool that runs at most `max_concurrent` downloads at a time.
    pub fn new(max_concurrent: usize) -> (r: DownloadManager)
        ensures
            r@.max == max_concurrent,
            r@.active.len() == 0,
            r@.waiting.len() == 0,
            pool_wf(r@),
    {
        let r = DownloadManager { max_concurrent, active: Vec::new(), waiting: Vec::new() };
        assert(r.waiting@.len() == 0);
        r
    }

    /// How many downloads are running.
    pub fn active_count(&self) -> (r: usize)
        ensures
            r == self@.active.len(),
    {
        self.active.len()
    }

    /// How many requests wait for a slot.
    pub fn waiting_count(&self) -> (r: usize)
        ensures
            r == self@.waiting.len(),
    {
        self.waiting.len()
    }

    /// A request arrives. It is handed back to be started at once if a slot
    /// is free; otherwise it waits.
    pub fn submit(&mut self, request: DownloadRequest) -> (r: Option<DownloadRequest>)
        requires
            pool_wf(old(self)@),
        ensures
            final(self)@ == after_submit(old(self)@, request.episode_id),
            pool_wf(final(self)@),
            r is Some <==> old(self)@.active.len() < old(self)@.max,
            r is Some ==> r == Some(request),
    {
        if self.active.len() < self.max_concurrent {
            let ghost before = self.active@;
            self.active.push(request.episode_id);
            assert(self.waiting@.len() == 0);
            Some(request)
        } else {
            let ghost before = self.waiting@;
            self.waiting.push(request);
            assert(ids_of(self.waiting@) =~= ids_of(before).push(self.waiting@.last().episode_id));
            None
        }
    }

    /// The download of `episode_id` ended. The first waiting request, if one
    /// takes the freed slot, is handed back to be started.
    pub fn finish(&mut self, episode_id: i64) -> (r: Option<DownloadRequest>)
        requires
            pool_wf(old(self)@),
        ensures
            final(self)@ == after_finish(old(self)@, episode_id),
            pool_wf(final(self)@),
            r is Some <==> final(self)@.waiting.len() < old(self)@.waiting.len(),
            r matches Some(x) ==> x.episode_id == old(self)@.waiting[0],
    {
        let mut p: usize = 0;
        while p < self.active.len() && self.active[p] != episode_id
            invariant
                p <= self.active@.len(),
                forall|q: int| 0 <= q < p ==> self.active@[q] != episode_id,
            decreases self.active.len() - p,
        {
            p = p + 1;
        }
        if p < self.active.len() {
            let ghost before = self.active@;
            self.active.remove(p);
            assert(before.to_multiset().count(episode_id) > 0);
        } else {
            assert(!self.active@.contains(episode_id));
            assert(self.active@.to_multiset().count(episode_id) == 0);
        }
        if self.waiting.len() > 0 && self.active.len() < self.max_concurrent {
            let ghost before = self.waiting@;
            let next = self.waiting.remove(0);
            assert(ids_of(self.waiting@) =~= ids_of(before).drop_first());
            self.active.push(next.episode_id);
            Some(next)
        } else {
            None
        }
    }
}

/// The pool after requests for `ids` arrive one after another.
pub open spec fn after_submits(v: PoolView, ids: Seq<i64>) -> PoolView
    decreases ids.len(),
{
    if ids.len() == 0 {
        v
    } else {
        after_submit(after_submits(v, ids.drop_last()), ids.last())
    }
}

/// A burst of requests on an idle pool with limit `N` starts exactly
/// `min(N, count)` of them; the rest wait.
pub proof fn lemma_burst_fills_slots(max: nat, ids: Seq<i64>)
    ensures
        ({
            let v = after_submits(
                PoolView { max, active: Multiset::empty(), waiting: Seq::empty() },
                ids,
            );
            &&& v.active.len() == if ids.len() < max {
                ids.len()
            } else {
                max
            }
            &&& v.waiting.len() == ids.len() - v.active.len()
            &&& v.max == max
            &&& pool_wf(v)
        }),
    decreases ids.len(),
{
    broadcast use {vstd::multiset::group_multiset_axioms, vstd::multiset::group_multiset_properties};

    let e = PoolView { max, active: Multiset::empty(), waiting: Seq::empty() };
    if ids.len() == 0 {
        assert(after_submits(e, ids) == e);
        assert(e.active.len() == 0);
    } else {
        lemma_burst_fills_slots(max, ids.drop_last());
        let u = after_submits(e, ids.drop_last());
        assert(after_submits(e, ids) == after_submit(u, ids.last()));
        if u.active.len() < max {
            assert(after_submit(u, ids.last()).active.len() == u.active.len() + 1);
        }
    }
}

/// Any sequence of arrivals keeps the pool within its limit.
pub proof fn lemma_submit_keeps_limit(v: PoolView, id: i64)
    requires
        pool_wf(v),
    ensures
        pool_wf(after_submit(v, id)),
        after_submit(v, id).active.len() <= v.max,
{
}

/// Any end of a download keeps the pool within its limit.
pub proof fn lemma_finish_keeps_limit(v: PoolView, id: i64)
    requires
        pool_wf(v),
    ensures
        pool_wf(after_finish(v, id)),
        after_finish(v, id).active.len() <= v.max,
{
}

/// Progress is reported at most this often, in milliseconds.
pub const PROGRESS_INTERVAL_MS: u64 = 500;

/// The progress of one running download; times are milliseconds on a
/// monotonic clock.
#[derive(Debug, Clone, Copy)]
pub struct ProgressTracker {
    pub downloaded: u64,
    pub total: Option<u64>,
    pub last_report_ms: u64,
    pub last_reported_bytes: u64,
}

/// One progress report: bytes so far, the total if known, the percentage,
/// and the bytes and time since the last report (their ratio is the speed).
#[derive(Debug, Clone, Copy)]
pub struct ProgressReport {
    pub downloaded: u64,
    pub total: Option<u64>,
    pub percent: i32,
    pub bytes_since_last: u64,
    pub elapsed_ms: u64,
}

/// What to do with a chunk that arrived.
#[derive(Debug, Clone, Copy)]
pub enum ChunkStep {
    /// Stop, and delete the partial file.
    Cancel,
    /// Write the chunk.
    Write,
    /// Write the chunk, then store and send the report.
    WriteAndReport(ProgressReport),
}

/// The percentage of `total` that `downloaded` is, rounded down and held to
/// the `i32` range; 0 where the total is unknown.
pub open spec fn percent_of(downloaded: int, total: Option<u64>) -> int {
    match total {
        None => 0,
        Some(t) => if t == 0 {
            if downloaded == 0 {
                0
            } else {
                i32::MAX as int
            }
        } else if downloaded * 100 / (t as int) > i32::MAX {
            i32::MAX as int
        } else {
            downloaded * 100 / (t as int)
        },
    }
}

pub open spec fn tracker_wf(p: ProgressTracker) -> bool {
    p.last_reported_bytes <= p.downloaded
}

impl ProgressTracker {
    /// A download of `total` bytes (if known) starting at `now_ms`.
    pub fn start(total: Option<u64>, now_ms: u64) -> (r: ProgressTracker)
        ensures
            r.downloaded == 0,
            r.total == total,
            r.last_report_ms == now_ms,
            r.last_reported_bytes == 0,
            tracker_wf(r),
    {
        ProgressTracker { downloaded: 0, total, last_report_ms: now_ms, last_reported_bytes: 0 }
    }

    /// A chunk of `chunk_len` bytes arrived at `now_ms`; `cancelled` says
    /// whether the download was cancelled. A cancelled download stops before
    /// the chunk is written; otherwise the chunk is counted, and a report is
    /// due where `PROGRESS_INTERVAL_MS` have passed since the last one.
    pub fn on_chunk(&mut self, cancelled: bool, chunk_len: u64, now_ms: u64) -> (r: ChunkStep)
        requires
            tracker_wf(*old(self)),
            !cancelled ==> old(self).downloaded + chunk_len <= u64::MAX,
        ensures
            tracker_wf(*final(self)),
            cancelled ==> r is Cancel && *final(self) == *old(self),
            !cancelled ==> final(self).downloaded == old(self).downloaded + chunk_len
                && final(self).total == old(self).total,
            !cancelled && now_ms >= old(self).last_report_ms && now_ms - old(self).last_report_ms
                >= PROGRESS_INTERVAL_MS ==> {
                &&& (r matches ChunkStep::WriteAndReport(rep) && rep.downloaded
                    == final(self).downloaded && rep.total == old(self).total && rep.percent
                    == percent_of(final(self).downloaded as int, old(self).total)
                    && rep.bytes_since_last == final(self).downloaded
                    - old(self).last_reported_bytes && rep.elapsed_ms == now_ms
                    - old(self).last_report_ms)
                &&& final(self).last_report_ms == now_ms
                &&& final(self).last_reported_bytes == final(self).downloaded
            },
            !cancelled && !(now_ms >= old(self).last_report_ms && now_ms - old(
                self,
            ).last_report_ms >= PROGRESS_INTERVAL_MS) ==> {
                &&& r is Write
                &&& final(self).last_report_ms == old(self).last_report_ms
                &&& final(self).last_reported_bytes == old(self).last_reported_bytes
            },
    {
        if cancelled {
            return ChunkStep::Cancel;
        }
        self.downloaded = self.downloaded + chunk_len;
        if now_ms >= self.last_report_ms && now_ms - self.last_report_ms >= PROGRESS_INTERVAL_MS {
            let percent: i32 = match self.total {
                None => 0,
                Some(t) => if t == 0 {
                    if self.downloaded == 0 {
                        0
                    } else {
                        i32::MAX
                    }
                } else {
                    let p: u128 = (self.downloaded as u128) * 100 / (t as u128);
                    if p > i32::MAX as u128 {
                        i32::MAX
                    } else {
                        p as i32
                    }
                },
            };
            let rep = ProgressReport {
                downloaded: self.downloaded,
                total: self.total,
                percent,
                bytes_since_last: self.downloaded - self.last_reported_bytes,
                elapsed_ms: now_ms - self.last_report_ms,
            };
            self.last_report_ms = now_ms;
            self.last_reported_bytes = self.downloaded;
            ChunkStep::WriteAndReport(rep)
        } else {
            ChunkStep::Write
        }
    }
}

} // verus!
