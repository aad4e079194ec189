use efficiency_cockpit::ai::{AiService, AiServiceConfig, InsightType};
use efficiency_cockpit::config::{AiConfig, Config, NotificationConfig};
use efficiency_cockpit::db::{new_file_event, new_snapshot, Database, FileEventType, Snapshot};
use efficiency_cockpit::error::{ConfigError, DatabaseError, Error, SearchError, WatcherError};
use efficiency_cockpit::gatekeeper::{DailySummary, Gatekeeper, GatekeeperConfig};
use efficiency_cockpit::snapshot::{
    context_directory, context_from_path, git_output_value, summarize_recent_activity, ContextInfo, SnapshotService,
};

fn enabled_service() -> AiService {
    AiService::new(AiServiceConfig { enabled: true, api_key: Some("key".to_string()), ..Default::default() })
}

#[test]
fn test_ai_service_disabled() {
    let config = AiServiceConfig::default();
    let service = AiService::new(config);

    assert!(!service.is_available());

    let insights = service.generate_insights(&vec![]);
    assert!(insights.is_empty());
}

#[test]
fn test_ai_service_enabled() {
    let config = AiServiceConfig { enabled: true, api_endpoint: None, api_key: Some("test_key".to_string()) };
    let service = AiService::new(config);

    assert!(service.is_available());
}

#[test]
fn test_generate_insights_empty() {
    let service = enabled_service();
    let insights = service.generate_insights(&vec![]);
    assert!(insights.is_empty());
}

#[test]
fn test_detect_focused_work() {
    let service = enabled_service();

    let mut snapshots = Vec::new();
    for _ in 0..15 {
        let mut snapshot = new_snapshot();
        snapshot.active_directory = Some("/src/project".to_string());
        snapshots.push(snapshot);
    }

    let insights = service.generate_insights(&snapshots);
    assert!(insights.iter().any(|i| i.insight_type == InsightType::ProductivityPattern));
}

#[test]
fn test_summarize_day() {
    let service = enabled_service();

    let summary = DailySummary {
        date: chrono::Utc::now().timestamp_micros(),
        total_events: 75,
        files_modified: 50,
        files_created: 10,
        most_active_directory: Some("/project".to_string()),
    };

    let insight = service.summarize_day(&summary);
    assert!(insight.is_some());
    assert!(insight.unwrap().description.contains("Solid"));
}

#[test]
fn test_generate_suggestions() {
    let service = enabled_service();

    let snapshots: Vec<Snapshot> = (0..60)
        .map(|i| {
            let mut s = new_snapshot();
            s.active_directory = Some(format!("/dir{}", i % 10));
            s
        })
        .collect();

    let suggestions = service.generate_suggestions(&snapshots);
    assert!(!suggestions.is_empty());
}

#[test]
fn test_achievement_detection() {
    let service = enabled_service();

    let snapshots: Vec<Snapshot> = (0..100).map(|_| new_snapshot()).collect();
    let insights = service.generate_insights(&snapshots);

    assert!(insights.iter().any(|i| i.insight_type == InsightType::Achievement));
}

#[test]
fn day_descriptions_by_bucket() {
    let service = enabled_service();
    let day = |total| DailySummary { date: 0, total_events: total, files_modified: 0, files_created: 0, most_active_directory: None };
    assert!(service.summarize_day(&day(0)).is_none());
    assert!(service.summarize_day(&day(10)).unwrap().description.starts_with("Light"));
    assert!(service.summarize_day(&day(21)).unwrap().description.starts_with("Moderate"));
    assert!(service.summarize_day(&day(100)).unwrap().description.starts_with("Solid"));
    assert!(service.summarize_day(&day(101)).unwrap().description.starts_with("Very high"));
    let suggestions = service.suggestions_at(9, &vec![]);
    assert!(suggestions.is_empty());
    assert_eq!(service.suggestions_at(18, &vec![]).len(), 1);
}

#[test]
fn test_default_notification_config() {
    let config = NotificationConfig::default();
    assert_eq!(config.daily_digest_hour, 20);
    assert_eq!(config.max_nudges_per_day, 2);
    assert!(config.enable_context_switch_nudges);
}

#[test]
fn test_default_for_testing() {
    let config = Config::default_for_testing();
    assert!(!config.directories.is_empty());
    assert!(!config.ignore_patterns.is_empty());
}

#[test]
fn test_config_validation() {
    let config = Config::default_for_testing();
    assert!(!config.directories.is_empty());
    assert!(!config.ignore_patterns.is_empty());
}

#[test]
fn test_validate_digest_hour_out_of_range() {
    let mut config = Config::default_for_testing();
    config.notifications.daily_digest_hour = 24;
    assert!(config.validate(&vec![true]).is_err());
}

#[test]
fn test_validate_empty_directories() {
    let mut config = Config::default_for_testing();
    config.directories.clear();
    assert!(config.validate(&vec![]).is_err());
}

#[test]
fn test_validate_max_nudges_too_high() {
    let mut config = Config::default_for_testing();
    config.notifications.max_nudges_per_day = 101;
    assert!(config.validate(&vec![true]).is_err());
}

#[test]
fn test_validate_max_snapshots_too_high() {
    let mut config = Config::default_for_testing();
    config.database.max_snapshots = 1_000_001;
    assert!(config.validate(&vec![true]).is_err());
}

#[test]
fn test_validate_invalid_regex() {
    let mut config = Config::default_for_testing();
    config.ignore_patterns = vec!["[invalid".to_string()];
    assert!(config.validate(&vec![true]).is_err());
}

#[test]
fn validation_accepts_defaults_and_reports_missing_directories() {
    let config = Config::default_for_testing();
    assert!(config.validate(&vec![true]).is_ok());
    match config.validate(&vec![false]) {
        Err(ConfigError::InvalidValue { field, message }) => {
            assert_eq!(field, "directories");
            assert!(message.contains("does not exist: ."));
        },
        _ => panic!("expected a missing-directory error"),
    }
    let mut bad = Config::default_for_testing();
    bad.ignore_patterns = vec!["ok".to_string(), "(".to_string()];
    assert!(matches!(bad.validate(&vec![true]), Err(ConfigError::InvalidPattern { pattern, .. }) if pattern == "("));
    let ai = AiConfig::default().with_api_key(Some("k".to_string()));
    assert_eq!(ai.api_key, Some("k".to_string()));
    assert!(Config::default_for_testing().database.path.ends_with("efficiency_cockpit/data.db"));
}

#[test]
fn test_config_error_display() {
    let err = ConfigError::NotFound { path: "/path/to/config.toml".to_string() };
    assert!(err.to_string().contains("/path/to/config.toml"));
}

#[test]
fn test_database_error_display() {
    let err = DatabaseError::OpenFailed { path: "/path/to/db".to_string(), message: "permission denied".to_string() };
    assert!(err.to_string().contains("permission denied"));
}

#[test]
fn test_search_error_display() {
    let err = SearchError::InvalidQuery { query: "bad query".to_string(), message: "syntax error".to_string() };
    assert!(err.to_string().contains("bad query"));
}

#[test]
fn test_watcher_error_display() {
    let err = WatcherError::DirectoryNotFound { path: "/nonexistent".to_string() };
    assert!(err.to_string().contains("/nonexistent"));
}

#[test]
fn test_error_conversion() {
    let config_err = ConfigError::NoConfigDir;
    let main_err: Error = config_err.into();
    assert!(main_err.to_string().contains("configuration directory"));
}

#[test]
fn test_error_types() {
    let config_err = ConfigError::NotFound { path: "/config.toml".to_string() };
    assert!(config_err.to_string().contains("/config.toml"));

    let db_err = DatabaseError::QueryFailed { message: "test error".to_string() };
    assert!(db_err.to_string().contains("test error"));
}

#[test]
fn test_snapshot_service_capture() {
    let mut db = Database::open_in_memory();
    let mut service = SnapshotService::new(&mut db);

    let context = ContextInfo {
        active_file: Some("/src/main.rs".to_string()),
        active_directory: Some("/src".to_string()),
        git_branch: Some("main".to_string()),
        git_repo_root: None,
    };

    let snapshot = service.capture(&context, Some("Working on tests".to_string())).unwrap();

    assert!(snapshot.active_file.is_some());
    assert_eq!(snapshot.git_branch, Some("main".to_string()));
    assert_eq!(snapshot.notes, Some("Working on tests".to_string()));
}

#[test]
fn test_snapshot_service_get_recent() {
    let mut db = Database::open_in_memory();
    let mut service = SnapshotService::new(&mut db);

    for i in 0..5 {
        let context = ContextInfo { active_directory: Some(format!("/dir{}", i)), ..Default::default() };
        service.capture(&context, None).unwrap();
    }

    let recent = service.get_recent(3);
    assert_eq!(recent.len(), 3);
}

#[test]
fn test_context_from_path_directory() {
    let context = context_from_path("/tmp/project", true, false, None, None);

    assert!(context.active_file.is_none());
    assert!(context.active_directory.is_some());
}

#[test]
fn context_for_directory_and_file_paths() {
    let dir = context_from_path("/work/proj", true, false, None, None);
    assert_eq!(dir.active_file, None);
    assert_eq!(dir.active_directory, Some("/work/proj".to_string()));
    let file = context_from_path("/work/proj/main.rs", false, true, Some("dev".to_string()), None);
    assert_eq!(file.active_file, Some("/work/proj/main.rs".to_string()));
    assert_eq!(file.active_directory, Some("/work/proj".to_string()));
    assert_eq!(file.git_branch, Some("dev".to_string()));
    assert_eq!(context_directory("/", false), "");
}

#[test]
fn git_output_is_trimmed_or_dropped() {
    assert_eq!(git_output_value(true, "  main\n"), Some("main".to_string()));
    assert_eq!(git_output_value(true, " \n"), None);
    assert_eq!(git_output_value(false, "main"), None);
}

#[test]
fn test_summarize_recent_activity() {
    let now = chrono::Utc::now().timestamp_micros();
    let snapshots = vec![
        Snapshot {
            id: "1".to_string(),
            timestamp: now,
            active_file: Some("/src/a.rs".to_string()),
            active_directory: Some("/src".to_string()),
            git_branch: Some("main".to_string()),
            notes: None,
        },
        Snapshot {
            id: "2".to_string(),
            timestamp: now,
            active_file: Some("/test/b.rs".to_string()),
            active_directory: Some("/test".to_string()),
            git_branch: Some("feature".to_string()),
            notes: None,
        },
    ];

    let summary = summarize_recent_activity(&snapshots);

    assert_eq!(summary.total_snapshots, 2);
    assert_eq!(summary.unique_directories, 2);
    assert_eq!(summary.unique_branches, 2);
    assert_eq!(summary.files_touched, 2);
}

#[test]
fn test_full_snapshot_workflow() {
    let mut db = Database::open_in_memory();
    let mut service = SnapshotService::new(&mut db);

    for i in 0..5 {
        let context = ContextInfo {
            active_file: Some(format!("/src/file{}.rs", i)),
            active_directory: Some("/src".to_string()),
            git_branch: Some("main".to_string()),
            git_repo_root: None,
        };
        service.capture(&context, Some(format!("Note {}", i))).unwrap();
    }

    let snapshots = service.get_recent(10);
    assert_eq!(snapshots.len(), 5);
    assert!(snapshots[0].notes.as_ref().unwrap().contains("Note"));
}

#[test]
fn test_gatekeeper_workflow() {
    let mut db = Database::open_in_memory();

    for i in 0..10 {
        let event = new_file_event(format!("/src/file{}.rs", i), FileEventType::Modified);
        db.insert_file_event(&event).unwrap();
    }

    for i in 0..10 {
        let mut snapshot = new_snapshot();
        snapshot.active_directory = Some(format!("/project{}", i % 3));
        db.insert_snapshot(&snapshot).unwrap();
    }

    let config = GatekeeperConfig::default();
    let gatekeeper = Gatekeeper::new(&db, config);

    let nudges = gatekeeper.analyze();
    let _ = nudges;

    let summary = gatekeeper.daily_summary(chrono::Utc::now().timestamp_micros());
    assert!(summary.total_events >= 10);
}

#[test]
fn test_database_cleanup() {
    let mut db = Database::open_in_memory();

    for _ in 0..20 {
        db.insert_snapshot(&new_snapshot()).unwrap();
    }

    let all = db.get_recent_snapshots(100);
    assert_eq!(all.len(), 20);

    let deleted = db.cleanup_old_snapshots(5);
    assert_eq!(deleted, 15);

    let remaining = db.get_recent_snapshots(100);
    assert_eq!(remaining.len(), 5);
}

#[test]
fn test_file_event_queries() {
    let hour = 3_600_000_000i64;
    let day = 24 * hour;
    let mut db = Database::open_in_memory();

    for i in 0..5 {
        let event = new_file_event(format!("/file{}.rs", i), FileEventType::Modified);
        db.insert_file_event(&event).unwrap();
    }

    let now = chrono::Utc::now().timestamp_micros();
    let events = db.get_file_events(now - hour, now + hour);
    assert_eq!(events.len(), 5);

    let no_events = db.get_file_events(now - 10 * day, now - 9 * day);
    assert!(no_events.is_empty());
}

#[test]
fn batch_capture_counts_and_retains() {
    let mut db = Database::open_in_memory();
    let mut service = SnapshotService::new(&mut db);
    let contexts: Vec<ContextInfo> =
        (0..6).map(|i| ContextInfo { active_directory: Some(format!("/d{}", i)), ..Default::default() }).collect();
    let outcome = service.capture_batch(&contexts, 4);
    assert_eq!(outcome.captured, 6);
    assert_eq!(outcome.failed, 0);
    assert_eq!(outcome.removed, 2);
    assert_eq!(service.get_recent(100).len(), 4);
}

#[test]
fn test_context_from_path_file() {
    let context = context_from_path("/tmp/work/test.rs", false, true, None, None);

    assert!(context.active_file.is_some());
    assert!(context.active_directory.is_some());
}

#[test]
fn test_context_from_various_paths() {
    let context = context_from_path("/tmp/work/test.rs", false, true, None, None);
    assert!(context.active_file.is_some());
    assert!(context.active_directory.is_some());

    let context2 = context_from_path("/tmp/work", true, false, None, None);
    assert!(context2.active_file.is_none());
    assert!(context2.active_directory.is_some());
}
