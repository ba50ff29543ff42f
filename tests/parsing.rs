use podcast_sync::models::{setting_bool, setting_int};
use podcast_sync::numbers::{is_newer_version, parse_duration, version_of_tag};

#[test]
fn test_parse_duration() {
    assert_eq!(parse_duration("1785"), Some(1785));
    assert_eq!(parse_duration("29:45"), Some(1785));
    assert_eq!(parse_duration("01:29:45"), Some(5385));
    assert_eq!(parse_duration("invalid"), None);
}

#[test]
fn test_version_comparison() {
    assert!(is_newer_version("0.1.0", "0.2.0"));
    assert!(is_newer_version("0.1.0", "1.0.0"));
    assert!(is_newer_version("0.1.5", "0.1.6"));
    assert!(!is_newer_version("0.2.0", "0.1.0"));
    assert!(!is_newer_version("1.0.0", "0.9.9"));
    assert!(!is_newer_version("0.1.0", "0.1.0"));
}

#[test]
fn duration_edge_cases() {
    assert_eq!(parse_duration(""), None);
    assert_eq!(parse_duration("+90"), Some(90));
    assert_eq!(parse_duration("-5"), Some(-5));
    assert_eq!(parse_duration("1:2:3:4"), None);
    assert_eq!(parse_duration("10:"), None);
    assert_eq!(parse_duration("2147483647"), Some(2147483647));
    assert_eq!(parse_duration("2147483648"), None);
    assert_eq!(parse_duration("600000:00:00"), None);
    assert_eq!(parse_duration("0:00:01"), Some(1));
}

#[test]
fn version_with_missing_and_odd_fields() {
    assert!(is_newer_version("1.2", "1.2.1"));
    assert!(!is_newer_version("1.2.0", "1.2"));
    assert!(is_newer_version("1.x.0", "1.1"));
    assert!(!is_newer_version("1.0.0.9", "1.0.0.1"));
}

#[test]
fn settings_read_as_numbers_and_flags() {
    assert_eq!(setting_int(&Some("5".to_string()), 3), 5);
    assert_eq!(setting_int(&Some("five".to_string()), 3), 3);
    assert_eq!(setting_int(&None, 3), 3);
    assert!(setting_bool(&Some("true".to_string()), false));
    assert!(!setting_bool(&Some("yes".to_string()), true));
    assert!(setting_bool(&None, true));
}

#[test]
fn release_tags_lose_their_v() {
    assert_eq!(version_of_tag("v1.2.3"), "1.2.3");
    assert_eq!(version_of_tag("vv0.9"), "0.9");
    assert_eq!(version_of_tag("1.0"), "1.0");
    assert!(is_newer_version("0.1.0", &version_of_tag("v0.2.0")));
}
