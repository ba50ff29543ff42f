use podcast_sync::extensions::{media_contents, thumbnail_url, ExtElement, ExtGroup, ExtNamespace};
use podcast_sync::discovery::{available_slots, plan_discovery};
use podcast_sync::downloads::{
    settle_download, ChunkStep, DownloadOutcome, DownloadManager, DownloadRequest, DownloadStatus,
    EpisodeDownload, ProgressTracker,
};
use podcast_sync::feed::ParsedItem;
use podcast_sync::media::{
    extract_all_media_urls, extract_enclosure_with_quality, Enclosure, FeedEnclosure, MediaContent,
};
use podcast_sync::models::episode_stats;
use podcast_sync::retention::{select_for_cleanup, CompletedEpisode};
use podcast_sync::schedule::{subscriptions_due, CheckRecord, ScheduleEntry};

fn item(guid: &str, date: Option<i64>, with_audio: bool) -> ParsedItem {
    ParsedItem {
        guid: guid.to_string(),
        title: guid.to_string(),
        description: None,
        pub_date: date,
        enclosure: if with_audio {
            Some(Enclosure { url: format!("https://x/{}.mp3", guid), mime_type: None, length: None })
        } else {
            None
        },
        image_url: None,
        author: None,
        duration: None,
    }
}

fn content(url: &str, mime: Option<&str>, title: Option<&str>) -> MediaContent {
    MediaContent {
        url: Some(url.to_string()),
        mime_type: mime.map(|m| m.to_string()),
        title: title.map(|t| t.to_string()),
        file_size: None,
    }
}

fn request(id: i64) -> DownloadRequest {
    DownloadRequest { episode_id: id, subscription_id: 1, url: String::new(), output_path: String::new() }
}

#[test]
fn quality_falls_back_through_flac_to_mp3() {
    let variants = vec![content("https://x/a-std.mp3", Some("audio/mpeg"), Some("Standard"))];
    let plain = Some(FeedEnclosure {
        url: "https://x/plain.mp3".to_string(),
        mime_type: "audio/mpeg".to_string(),
        length: "10".to_string(),
    });
    let got = extract_enclosure_with_quality(&variants, &plain, "original").unwrap();
    assert_eq!(got.url, "https://x/a-std.mp3");
}

#[test]
fn no_variants_gives_plain_enclosure_or_nothing() {
    let plain = Some(FeedEnclosure {
        url: "https://x/plain.mp3".to_string(),
        mime_type: "audio/mpeg".to_string(),
        length: "10".to_string(),
    });
    let got = extract_enclosure_with_quality(&Vec::new(), &plain, "original").unwrap();
    assert_eq!(got.url, "https://x/plain.mp3");
    assert_eq!(got.length, Some(10));
    assert!(extract_enclosure_with_quality(&Vec::new(), &None, "original").is_none());
}

#[test]
fn quality_matching_uses_lowercased_title() {
    let variants = vec![
        content("https://x/a.bin", None, Some("Version ORIGINALE")),
        content("https://x/b.bin", Some("audio/x-flac"), None),
    ];
    let got = extract_enclosure_with_quality(&variants, &None, "original").unwrap();
    assert_eq!(got.url, "https://x/a.bin");
    let got = extract_enclosure_with_quality(&variants, &None, "flac").unwrap();
    assert_eq!(got.url, "https://x/b.bin");
    let urls = extract_all_media_urls(&variants, &None);
    assert_eq!(urls.standard_url, None);
    assert_eq!(urls.original_url.as_deref(), Some("https://x/a.bin"));
    assert_eq!(urls.flac_url.as_deref(), Some("https://x/b.bin"));
    assert_eq!(urls.mp3_url, None);
}

#[test]
fn rediscovery_creates_no_duplicates() {
    let items = vec![item("a", Some(10), true), item("b", Some(20), true), item("a", Some(30), true)];
    let known = vec!["b".to_string()];
    let plan = plan_discovery(&items, 10, &known, None, 0);
    let guids: Vec<&str> = plan.selected.iter().map(|&i| items[i].guid.as_str()).collect();
    assert_eq!(guids, vec!["a"]);
    assert_eq!(plan.selected, vec![2]);
    let known_all = vec!["a".to_string(), "b".to_string()];
    assert!(plan_discovery(&items, 10, &known_all, None, 0).selected.is_empty());
}

#[test]
fn cap_keeps_newest_and_orders_undated_last() {
    let items = vec![
        item("u", None, true),
        item("old", Some(100), true),
        item("new", Some(300), true),
        item("mid", Some(200), true),
        item("u2", None, true),
    ];
    let plan = plan_discovery(&items, 10, &Vec::new(), Some(3), 0);
    assert_eq!(plan.ordered, vec![2, 3, 1, 0, 4]);
    assert_eq!(plan.selected, vec![2, 3, 1]);
    let plan = plan_discovery(&items, 10, &Vec::new(), Some(3), 3);
    assert!(plan.selected.is_empty());
    let plan = plan_discovery(&items, 2, &Vec::new(), None, 0);
    assert_eq!(plan.selected, vec![1, 0]);
    assert_eq!(available_slots(Some(5), 2), 3);
    assert_eq!(available_slots(Some(2), 5), 0);
    assert_eq!(available_slots(None, 5), usize::MAX);
}

#[test]
fn items_without_audio_use_a_slot_and_are_skipped() {
    let items = vec![item("a", Some(3), false), item("b", Some(2), true), item("c", Some(1), true)];
    let plan = plan_discovery(&items, -1, &Vec::new(), Some(2), 0);
    assert_eq!(plan.selected, vec![1]);
}

#[test]
fn retention_prunes_oldest_beyond_cap() {
    let eps: Vec<CompletedEpisode> = vec![
        CompletedEpisode { id: 1, pub_date: Some(300), discovered_at: 1, download_path: None },
        CompletedEpisode { id: 2, pub_date: Some(100), discovered_at: 2, download_path: None },
        CompletedEpisode { id: 3, pub_date: None, discovered_at: 3, download_path: None },
        CompletedEpisode { id: 4, pub_date: Some(100), discovered_at: 1, download_path: None },
        CompletedEpisode { id: 5, pub_date: Some(200), discovered_at: 5, download_path: None },
    ];
    assert_eq!(select_for_cleanup(&eps, Some(2)), vec![2, 3, 1]);
    assert!(select_for_cleanup(&eps, Some(5)).is_empty());
    assert!(select_for_cleanup(&eps, Some(0)).is_empty());
    assert!(select_for_cleanup(&eps, None).is_empty());
}

#[test]
fn scheduler_picks_due_subscriptions_stalest_first() {
    let now = 10_000;
    let entries = vec![
        ScheduleEntry { id: 1, enabled: true, check_frequency_minutes: 10, last_checked_at: Some(now - 600) },
        ScheduleEntry { id: 2, enabled: true, check_frequency_minutes: 10, last_checked_at: Some(now - 599) },
        ScheduleEntry { id: 3, enabled: true, check_frequency_minutes: 10, last_checked_at: None },
        ScheduleEntry { id: 4, enabled: false, check_frequency_minutes: 1, last_checked_at: None },
        ScheduleEntry { id: 5, enabled: true, check_frequency_minutes: 1, last_checked_at: Some(now - 5000) },
    ];
    assert_eq!(subscriptions_due(&entries, now), vec![2, 4, 0]);
}

#[test]
fn check_record_success_and_failure() {
    let mut rec = CheckRecord {
        last_checked_at: None,
        last_success_at: None,
        last_error: Some("old".to_string()),
        total_episodes_found: 4,
        total_downloads: 0,
    };
    rec.record_check(100, 3, None);
    assert_eq!(rec.last_checked_at, Some(100));
    assert_eq!(rec.last_success_at, Some(100));
    assert_eq!(rec.last_error, None);
    assert_eq!(rec.total_episodes_found, 7);
    rec.record_check(200, 0, Some("boom".to_string()));
    assert_eq!(rec.last_checked_at, Some(200));
    assert_eq!(rec.last_success_at, Some(100));
    assert_eq!(rec.last_error.as_deref(), Some("boom"));
    assert_eq!(rec.total_episodes_found, 7);
    rec.increment_download_count();
    assert_eq!(rec.total_downloads, 1);
}

#[test]
fn pool_never_exceeds_its_limit() {
    let n = 3;
    let mut pool = DownloadManager::new(n);
    let mut started = Vec::new();
    for id in 0..(n as i64 + 5) {
        if let Some(r) = pool.submit(request(id)) {
            started.push(r.episode_id);
        }
        assert!(pool.active_count() <= n);
    }
    assert_eq!(started, vec![0, 1, 2]);
    assert_eq!(pool.active_count(), 3);
    assert_eq!(pool.waiting_count(), 5);
    let next = pool.finish(1).unwrap();
    assert_eq!(next.episode_id, 3);
    assert_eq!(pool.active_count(), 3);
    assert_eq!(pool.waiting_count(), 4);
    assert!(pool.finish(42).is_none());
    assert_eq!(pool.active_count(), 3);
}

#[test]
fn cancelled_download_is_never_completed() {
    let mut tracker = ProgressTracker::start(Some(1000), 0);
    assert!(matches!(tracker.on_chunk(false, 100, 100), ChunkStep::Write));
    match tracker.on_chunk(false, 400, 600) {
        ChunkStep::WriteAndReport(r) => {
            assert_eq!(r.downloaded, 500);
            assert_eq!(r.percent, 50);
            assert_eq!(r.bytes_since_last, 500);
            assert_eq!(r.elapsed_ms, 600);
        }
        _ => panic!("a report was due"),
    }
    assert!(matches!(tracker.on_chunk(true, 100, 700), ChunkStep::Cancel));
    assert_eq!(tracker.downloaded, 500);
    let mut ep = EpisodeDownload::new_pending();
    ep.mark_downloading(5);
    assert_eq!(ep.attempts, 1);
    settle_download(&mut ep, DownloadOutcome::Cancelled, "/x.mp3".to_string(), 9);
    assert_eq!(ep.status, DownloadStatus::Failed);
    assert_ne!(ep.status, DownloadStatus::Completed);
    assert_eq!(ep.error.as_deref(), Some("Download cancelled"));
}

#[test]
fn episode_lifecycle() {
    let mut ep = EpisodeDownload::new_pending();
    ep.mark_downloading(1);
    ep.update_progress(40);
    settle_download(&mut ep, DownloadOutcome::Finished, "/p.mp3".to_string(), 2);
    assert_eq!(ep.status, DownloadStatus::Completed);
    assert_eq!(ep.progress, 100);
    assert_eq!(ep.path.as_deref(), Some("/p.mp3"));
    assert!(ep.verify_file(true));
    assert!(!ep.verify_file(false));
    assert_eq!(ep.status, DownloadStatus::Pending);
    assert_eq!(ep.path, None);
    ep.cancel_for_disabled();
    assert_eq!(ep.status, DownloadStatus::Paused);
    ep.reset_for_retry();
    assert_eq!(ep.status, DownloadStatus::Pending);
    assert_eq!(DownloadStatus::from_text("failed"), Some(DownloadStatus::Failed));
    assert_eq!(DownloadStatus::Completed.as_text(), "completed");
    assert_eq!(DownloadStatus::from_text("nope"), None);
}

#[test]
fn stats_count_each_status() {
    let s = episode_stats(&vec![
        DownloadStatus::Pending,
        DownloadStatus::Completed,
        DownloadStatus::Completed,
        DownloadStatus::Paused,
        DownloadStatus::Failed,
    ]);
    assert_eq!((s.total, s.pending, s.downloading, s.completed, s.failed), (5, 1, 0, 2, 1));
}

#[test]
fn media_variants_are_read_from_extension_elements() {
    let title = ExtElement { value: Some("Brute".to_string()), attrs: vec![], children: vec![] };
    let content = ExtElement {
        value: None,
        attrs: vec![
            ("url".to_string(), "https://x/b.flac".to_string()),
            ("fileSize".to_string(), "77".to_string()),
        ],
        children: vec![ExtGroup { name: "title".to_string(), elements: vec![title] }],
    };
    let group = ExtElement {
        value: None,
        attrs: vec![],
        children: vec![ExtGroup { name: "content".to_string(), elements: vec![content] }],
    };
    let ns = vec![ExtNamespace {
        prefix: "media".to_string(),
        groups: vec![ExtGroup { name: "group".to_string(), elements: vec![group] }],
    }];
    let found = media_contents(&ns);
    assert_eq!(found.len(), 1);
    assert_eq!(found[0].url.as_deref(), Some("https://x/b.flac"));
    assert_eq!(found[0].title.as_deref(), Some("Brute"));
    assert_eq!(found[0].file_size.as_deref(), Some("77"));
    assert_eq!(found[0].mime_type, None);
    assert_eq!(thumbnail_url(&ns), None);
    let got = extract_enclosure_with_quality(&found, &None, "flac").unwrap();
    assert_eq!(got.length, Some(77));
}

#[test]
fn title_match_outranks_mime_match() {
    let variants = vec![
        content("https://x/ua", Some("audio/flac"), None),
        content("https://x/ub", None, Some("Version brute")),
    ];
    let got = extract_enclosure_with_quality(&variants, &None, "flac").unwrap();
    assert_eq!(got.url, "https://x/ub");
    let variants = vec![
        content("https://x/a-raw", None, None),
        content("https://x/b", Some("audio/flac"), None),
    ];
    let got = extract_enclosure_with_quality(&variants, &None, "flac").unwrap();
    assert_eq!(got.url, "https://x/b");
}
