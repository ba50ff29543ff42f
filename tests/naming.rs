use podcast_sync::naming::{
    apply_filename_format, build_output_path, build_output_path_with_format, episode_output_path,
    extension_from_mime, extract_extension, handle_duplicate, render_filename,
    resolve_extension, sanitize_filename,
};

#[test]
fn test_sanitize_filename() {
    assert_eq!(sanitize_filename("Hello/World:Test"), "Hello_World_Test");
    assert_eq!(sanitize_filename("Episode*1<New>"), "Episode_1_New_");
}

#[test]
fn test_extract_extension() {
    assert_eq!(
        extract_extension("https://example.com/audio.mp3?token=123"),
        Some("mp3".to_string())
    );
    assert_eq!(
        extract_extension("https://example.com/audio.m4a"),
        Some("m4a".to_string())
    );
}

#[test]
fn test_extension_from_mime() {
    assert_eq!(extension_from_mime("audio/mpeg"), "mp3");
    assert_eq!(extension_from_mime("audio/mp4"), "m4a");
    assert_eq!(extension_from_mime("audio/unknown"), "mp3");
}

#[test]
fn sanitize_collapses_whitespace_and_truncates() {
    assert_eq!(sanitize_filename("  a \t b\n\nc  "), "a b c");
    assert_eq!(sanitize_filename(""), "");
    let long = "x".repeat(250);
    assert_eq!(sanitize_filename(&long).chars().count(), 200);
}

#[test]
fn extension_resolution_table() {
    assert_eq!(extension_from_mime("audio/ogg"), "ogg");
    assert_eq!(extension_from_mime("audio/wav"), "wav");
    assert_eq!(extension_from_mime("audio/flac"), "flac");
    assert_eq!(extension_from_mime("audio/aac"), "aac");
    assert_eq!(extract_extension(".../a.m4a?x=1"), Some("m4a".to_string()));
    assert_eq!(extract_extension("https://example.com/AUDIO.MP3"), Some("mp3".to_string()));
    assert_eq!(extract_extension("https://example.com/a.toolong"), None);
    assert_eq!(extract_extension("https://example.com/a.m-4"), None);
}

#[test]
fn resolve_extension_prefers_mime_then_url_then_mp3() {
    assert_eq!(resolve_extension(&Some("audio/mpeg".to_string()), "x.ogg"), "mp3");
    assert_eq!(resolve_extension(&Some("audio/mp4".to_string()), "x.ogg"), "m4a");
    assert_eq!(resolve_extension(&Some("audio/unknown".to_string()), "x.ogg"), "mp3");
    assert_eq!(resolve_extension(&None, ".../a.m4a?x=1"), "m4a");
    assert_eq!(resolve_extension(&None, "https://h/path/no-ext-here"), "mp3");
}

#[test]
fn render_fills_every_placeholder() {
    assert_eq!(
        render_filename("{date}_{show}-{episode}", "My:Show", "Ep 1", "2024-01-02"),
        "2024-01-02_My_Show-Ep 1"
    );
    assert_eq!(render_filename("{episode}{episode}", "s", "e", "d"), "ee");
    assert_eq!(render_filename("plain", "s", "e", "d"), "plain");
}

#[test]
fn filename_format_dates_by_utc_day() {
    assert_eq!(
        apply_filename_format("{date} {episode}", "S", "E", Some(1704153600)),
        "2024-01-02 E"
    );
    assert_eq!(
        apply_filename_format("{date} {episode}", "S", "E", None),
        "unknown-date E"
    );
}

#[test]
fn naming_is_deterministic_and_numbers_duplicates() {
    let empty: Vec<String> = Vec::new();
    let a = build_output_path_with_format("/base", "Show", "Ep", None, "x.mp3", "{episode}", &empty);
    let b = build_output_path_with_format("/base", "Show", "Ep", None, "x.mp3", "{episode}", &empty);
    assert_eq!(a, "/base/Show/Ep.mp3");
    assert_eq!(a, b);
    let taken = vec!["Ep.mp3".to_string()];
    let c = build_output_path_with_format("/base", "Show", "Ep", None, "x.mp3", "{episode}", &taken);
    assert_eq!(c, "/base/Show/Ep_2.mp3");
    assert!(c.ends_with("_2.mp3"));
}

#[test]
fn duplicate_numbering_skips_taken_names() {
    let taken = vec!["a.mp3".to_string(), "a_2.mp3".to_string(), "a_3.mp3".to_string()];
    assert_eq!(handle_duplicate("a", "mp3", &taken), "a_4.mp3");
    assert_eq!(handle_duplicate("a", "mp3", &Vec::new()), "a_2.mp3");
}

#[test]
fn legacy_output_path_uses_show_and_episode() {
    let empty: Vec<String> = Vec::new();
    assert_eq!(
        build_output_path("/d/", "Show", "Title", None, "Title.m4a", &empty),
        "/d/Show/Show-Title.m4a"
    );
    assert_eq!(
        build_output_path("", "Show", "Title", None, "no ext here", &empty),
        "Show/Show-Title.mp3"
    );
}

#[test]
fn episode_path_uses_mime_extension_and_template() {
    let empty: Vec<String> = Vec::new();
    let p = episode_output_path(
        "/out",
        "Show",
        "Ep/1",
        Some(1704153600),
        &Some("audio/mp4".to_string()),
        "https://x/a.mp3",
        "{date}-{episode}",
        &empty,
    );
    assert_eq!(p, "/out/Show/2024-01-02-Ep_1.m4a");
    let taken = vec!["2024-01-02-Ep_1.m4a".to_string()];
    let q = episode_output_path(
        "/out",
        "Show",
        "Ep/1",
        Some(1704153600),
        &Some("audio/mp4".to_string()),
        "https://x/a.mp3",
        "{date}-{episode}",
        &taken,
    );
    assert_eq!(q, "/out/Show/2024-01-02-Ep_1_2.m4a");
}

#[test]
fn extension_comes_from_mime_even_for_odd_titles() {
    let empty: Vec<String> = Vec::new();
    let p = episode_output_path(
        "/out",
        "Show",
        "What?",
        None,
        &Some("audio/mpeg".to_string()),
        "https://x/a.m4a",
        "{episode}",
        &empty,
    );
    assert_eq!(p, "/out/Show/What_.mp3");
}

#[test]
fn empty_tail_is_no_extension() {
    assert_eq!(extract_extension("a."), None);
    assert_eq!(extract_extension("https://x/file.?q=1"), None);
}

#[test]
fn numbering_without_extension_adds_no_dot() {
    let taken = vec!["a.".to_string()];
    assert_eq!(handle_duplicate("a", "", &taken), "a_2");
    assert_eq!(handle_duplicate("a", "", &vec!["a_2".to_string()]), "a_3");
}

#[test]
fn templates_stay_under_the_show_directory() {
    let empty: Vec<String> = Vec::new();
    let p = build_output_path_with_format("/out", "Show", "Ep", None, "x.mp3", "/{episode}", &empty);
    assert_eq!(p, "/out/Show//Ep.mp3");
    assert!(p.starts_with("/out/Show/"));
}
