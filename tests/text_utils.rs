use efficiency_cockpit::cli::priority_badge;
use efficiency_cockpit::export::csv_escape;
use efficiency_cockpit::search::{index_document, is_indexable};
use efficiency_cockpit::utils::{
    format_bytes, format_duration, format_relative_time, get_extension, is_text_file, relative_time_at,
    sanitize_filename, truncate_string,
};

const MINUTE: i64 = 60_000_000;

#[test]
fn test_format_duration_seconds() {
    assert_eq!(format_duration(45), "45s");
}

#[test]
fn test_format_duration_minutes() {
    assert_eq!(format_duration(5 * 60), "5m");
    assert_eq!(format_duration(90), "1m 30s");
}

#[test]
fn test_format_duration_hours() {
    assert_eq!(format_duration(2 * 3600), "2h");
    assert_eq!(format_duration(150 * 60), "2h 30m");
}

#[test]
fn test_format_duration_days() {
    assert_eq!(format_duration(3 * 86400), "3d");
    assert_eq!(format_duration(30 * 3600), "1d 6h");
}

#[test]
fn test_format_relative_time() {
    let now = chrono::Utc::now().timestamp_micros();
    assert_eq!(format_relative_time(now), "just now");

    let five_min_ago = now - 5 * MINUTE;
    assert_eq!(format_relative_time(five_min_ago), "5m ago");
}

#[test]
fn relative_time_edges() {
    assert_eq!(relative_time_at(0, 2_000_000), "in the future");
    assert_eq!(relative_time_at(0, 500_000), "just now");
    assert_eq!(relative_time_at(61_000_000, 0), "1m 1s ago");
    assert_eq!(format_duration(-5), "-5s");
}

#[test]
fn test_truncate_string() {
    assert_eq!(truncate_string("hello", 10), "hello");
    assert_eq!(truncate_string("hello world", 8), "hello...");
    assert_eq!(truncate_string("hi", 2), "hi");
}

#[test]
fn truncate_short_limits() {
    assert_eq!(truncate_string("hello", 3), "hel");
    assert_eq!(truncate_string("héllo", 5), "hé...");
}

#[test]
fn test_get_extension() {
    assert_eq!(get_extension("/path/file.rs"), Some("rs".to_string()));
    assert_eq!(get_extension("/path/file.RS"), Some("rs".to_string()));
    assert_eq!(get_extension("/path/file"), None);
}

#[test]
fn test_is_text_file() {
    assert!(is_text_file("main.rs"));
    assert!(is_text_file("readme.md"));
    assert!(!is_text_file("image.png"));
    assert!(!is_text_file("binary"));
}

#[test]
fn test_format_bytes() {
    assert_eq!(format_bytes(500), "500 B");
    assert_eq!(format_bytes(1024), "1.00 KB");
    assert_eq!(format_bytes(1048576), "1.00 MB");
    assert_eq!(format_bytes(1073741824), "1.00 GB");
}

#[test]
fn format_bytes_rounds_like_float_formatting() {
    for b in [1152u64, 1536, 1034, 1029, 2047, 5_000_000, 1_234_567_890, 1_048_575] {
        let expected = if b >= 1 << 30 {
            format!("{:.2} GB", b as f64 / (1u64 << 30) as f64)
        } else if b >= 1 << 20 {
            format!("{:.2} MB", b as f64 / (1u64 << 20) as f64)
        } else {
            format!("{:.2} KB", b as f64 / 1024.0)
        };
        assert_eq!(format_bytes(b), expected, "bytes = {}", b);
    }
}

#[test]
fn test_sanitize_filename() {
    assert_eq!(sanitize_filename("hello world"), "hello_world");
    assert_eq!(sanitize_filename("file/name:bad"), "file_name_bad");
    assert_eq!(sanitize_filename("valid-name_123.txt"), "valid-name_123.txt");
}

#[test]
fn sanitize_keeps_unicode_letters() {
    assert_eq!(sanitize_filename("café ü"), "café_ü");
}

#[test]
fn test_priority_badge_high() {
    let badge = priority_badge("HIGH");
    assert!(badge.contains("HIGH"));
}

#[test]
fn test_priority_badge_medium() {
    let badge = priority_badge("MEDIUM");
    assert!(badge.contains("MEDIUM"));
}

#[test]
fn test_priority_badge_low() {
    let badge = priority_badge("LOW");
    assert!(badge.contains("LOW"));
}

#[test]
fn priority_badge_ignores_case_and_brackets_unknown() {
    assert!(priority_badge("high").contains("[HIGH]"));
    assert_eq!(priority_badge("urgent"), "[urgent]");
}

#[test]
fn csv_escape_cases() {
    assert_eq!(csv_escape("plain"), "plain");
    assert_eq!(csv_escape("a,b"), "\"a,b\"");
    assert_eq!(csv_escape("say \"hi\""), "\"say \"\"hi\"\"\"");
    assert_eq!(csv_escape("=SUM(A1)"), "'=SUM(A1)");
    assert_eq!(csv_escape("-1,2"), "\"'-1,2\"");
    assert_eq!(csv_escape(""), "");
}

#[test]
fn indexable_documents() {
    assert!(is_indexable("/src/main.rs"));
    assert!(!is_indexable("/img/a.png"));
    assert!(!is_indexable("/src/MAIN.RS"));
    let doc = index_document("/src/main.rs", "fn main() {}".to_string()).unwrap();
    assert_eq!(doc.title, "main.rs");
    assert_eq!(doc.path, "/src/main.rs");
    assert!(index_document("/img/a.png", String::new()).is_none());
}

#[test]
fn test_cli_priority_badge() {
    let high = priority_badge("HIGH");
    assert!(high.contains("HIGH"));

    let medium = priority_badge("MEDIUM");
    assert!(medium.contains("MEDIUM"));

    let low = priority_badge("LOW");
    assert!(low.contains("LOW"));
}
